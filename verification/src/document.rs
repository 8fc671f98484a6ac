//! Document assembly: one heading-and-text block per dependency, the
//! per-dependency decision about where its license text comes from, and the
//! final rendering of the concatenated Markdown.
use vstd::prelude::*;
use crate::outside;
use crate::resolver;
use crate::text;

verus! {

/// What the enumerator reports of one dependency.
pub struct DependencyInfo {
    pub name: String,
    pub version: String,
    pub license: Option<String>,
    pub license_file: Option<String>,
    pub authors: Option<String>,
    pub repository: Option<String>,
}

/// The heading line of a dependency's block: name and version, the name
/// linked to the repository when one is known, and the author appended when
/// one is known.
pub open spec fn spec_heading(
    name: Seq<char>,
    version: Seq<char>,
    authors: Option<Seq<char>>,
    repository: Option<Seq<char>>,
) -> Seq<char> {
    let base = match repository {
        None => ("# ")@ + name + (" (")@ + version + (")")@,
        Some(repo) => ("# [")@ + name + ("](")@ + repo + (") (")@ + version + (")")@,
    };
    match authors {
        None => base,
        Some(a) => base + (" by ")@ + a,
    }
}

/// Builds a dependency's block: the heading, a paragraph break, and the
/// license text, in that order.
pub fn license(
    name: &str,
    version: &str,
    license_text: &str,
    authors: Option<String>,
    repository: Option<String>,
) -> (r: Vec<String>)
    ensures
        r.deep_view() == seq![
            spec_heading(name@, version@, authors.deep_view(), repository.deep_view()),
            ("\n\n")@,
            license_text@,
        ],
{
    let mut h1 = match &repository {
        None => {
            let mut x = String::from_str("# ");
            x.append(name);
            x.append(" (");
            x.append(version);
            x.append(")");
            x
        },
        Some(repo) => {
            let mut x = String::from_str("# [");
            x.append(name);
            x.append("](");
            x.append(repo.as_str());
            x.append(") (");
            x.append(version);
            x.append(")");
            x
        },
    };
    match &authors {
        None => {},
        Some(author) => {
            h1.append(" by ");
            h1.append(author.as_str());
        },
    }
    let mut r: Vec<String> = Vec::new();
    r.push(h1);
    r.push(String::from_str("\n\n"));
    r.push(String::from_str(license_text));
    proof {
        assert(r.deep_view() =~= seq![
            spec_heading(name@, version@, authors.deep_view(), repository.deep_view()),
            ("\n\n")@,
            license_text@,
        ]);
    }
    r
}

/// The raw-content URL for a dependency's license file: the first segment of
/// the repository URL's path stands in for both the organization and the
/// project name.
pub open spec fn spec_raw_url(path: Seq<char>, license_file: Seq<char>) -> Seq<char> {
    let seg = text::spec_split(path, ("/")@)[0];
    ("https://raw.githubusercontent.com/")@ + seg + ("/")@ + seg + ("/main/")@ + license_file
}

/// Builds the raw-content URL from a repository URL's path and the license
/// file name.
pub fn raw_license_url(path: &str, license_file: &str) -> (r: String)
    ensures
        r@ == spec_raw_url(path@, license_file@),
{
    proof {
        reveal_strlit("/");
        text::lemma_split_nonempty(path@, ("/")@);
    }
    let parts = text::split_str(path, "/");
    assert(parts@.len() == parts.deep_view().len());
    let seg = parts[0].as_str();
    assert(seg@ == text::spec_split(path@, ("/")@)[0]);
    let mut url = String::from_str("https://raw.githubusercontent.com/");
    url.append(seg);
    url.append("/");
    url.append(seg);
    url.append("/main/");
    url.append(license_file);
    url
}

/// What the run does with one dependency.
pub enum Plan {
    /// The license expression is resolved against the catalog.
    Resolve,
    /// The license file is fetched from the repository at this URL.
    Fetch(String),
    /// No license and no license file: the dependency is skipped with a
    /// warning.
    SkipNoLicense,
    /// A license file but no repository to fetch it from: skipped with a
    /// warning.
    SkipNoRepository,
    /// The repository URL does not parse: skipped with an error report.
    SkipInvalidUri,
}

/// Decides what to do with a dependency: a declared license expression is
/// resolved; otherwise a named license file is fetched from the repository
/// when the repository URL parses; anything less is skipped.
pub fn plan_for(dep: &DependencyInfo) -> (r: Plan)
    ensures
        match dep.license {
            Some(_) => r == Plan::Resolve,
            None => match dep.license_file {
                None => r == Plan::SkipNoLicense,
                Some(lf) => match dep.repository {
                    None => r == Plan::SkipNoRepository,
                    Some(repo) => match outside::uri_path_opt(repo@) {
                        Some(p) => r matches Plan::Fetch(u) && u@ == spec_raw_url(p, lf@),
                        None => r == Plan::SkipInvalidUri,
                    },
                },
            },
        },
{
    if dep.license.is_some() {
        return Plan::Resolve;
    }
    match &dep.license_file {
        None => Plan::SkipNoLicense,
        Some(lf) => match &dep.repository {
            None => Plan::SkipNoRepository,
            Some(repo) => {
                let parsed = outside::parse_uri_path(repo.as_str());
                match parsed {
                    Some(path) => Plan::Fetch(raw_license_url(path.as_str(), lf.as_str())),
                    None => Plan::SkipInvalidUri,
                }
            },
        },
    }
}

/// Copies an optional string.
pub fn clone_opt_string(o: &Option<String>) -> (r: Option<String>)
    ensures
        r.deep_view() == o.deep_view(),
{
    match o {
        Some(s) => Some(s.clone()),
        None => None,
    }
}

/// Builds the block of a dependency that declares a license expression: the
/// expression's resolved texts, joined by paragraph breaks, under the
/// dependency's heading.
pub fn block_for_license(dep: &DependencyInfo) -> (r: Vec<String>)
    requires
        dep.license is Some,
    ensures
        exists|y: int|
            -262143 <= y <= 262142 && r.deep_view() == seq![
                spec_heading(
                    dep.name@,
                    dep.version@,
                    dep.authors.deep_view(),
                    dep.repository.deep_view(),
                ),
                ("\n\n")@,
                text::spec_join(
                    resolver::spec_resolve(
                        outside::lower_of(dep.license->0@),
                        dep.authors.deep_view(),
                        y,
                    ),
                    ("\n\n")@,
                ),
            ],
{
    let lic = match &dep.license {
        Some(l) => l,
        None => {
            proof {
                assert(false);
            }
            &dep.name
        },
    };
    let texts = resolver::lookup_md(lic.as_str(), &dep.authors);
    let joined = text::join_strs(&texts, "\n\n");
    let authors = clone_opt_string(&dep.authors);
    let repository = clone_opt_string(&dep.repository);
    let r = license(dep.name.as_str(), dep.version.as_str(), joined.as_str(), authors, repository);
    proof {
        let y = choose|y: int|
            -262143 <= y <= 262142 && texts.deep_view() == resolver::spec_resolve(
                outside::lower_of(dep.license->0@),
                dep.authors.deep_view(),
                y,
            );
        assert(r.deep_view() == seq![
            spec_heading(
                dep.name@,
                dep.version@,
                dep.authors.deep_view(),
                dep.repository.deep_view(),
            ),
            ("\n\n")@,
            text::spec_join(
                resolver::spec_resolve(
                    outside::lower_of(dep.license->0@),
                    dep.authors.deep_view(),
                    y,
                ),
                ("\n\n")@,
            ),
        ]);
    }
    r
}

/// Builds the block of a dependency whose license text was fetched from its
/// repository.
pub fn block_for_fetched(dep: &DependencyInfo, fetched_text: &str) -> (r: Vec<String>)
    ensures
        r.deep_view() == seq![
            spec_heading(
                dep.name@,
                dep.version@,
                dep.authors.deep_view(),
                dep.repository.deep_view(),
            ),
            ("\n\n")@,
            fetched_text@,
        ],
{
    let authors = clone_opt_string(&dep.authors);
    let repository = clone_opt_string(&dep.repository);
    license(dep.name.as_str(), dep.version.as_str(), fetched_text, authors, repository)
}

/// Renders the concatenation of all block parts, in order, to HTML.
pub fn render_html(parts: &Vec<String>) -> (r: String)
    ensures
        r@ == outside::html_of(text::spec_join(parts.deep_view(), Seq::<char>::empty())),
{
    proof {
        reveal_strlit("");
        assert(("")@ =~= Seq::<char>::empty());
    }
    let joined = text::join_strs(parts, "");
    assert(joined@ == text::spec_join(parts.deep_view(), Seq::<char>::empty()));
    outside::markdown_to_html_text(joined.as_str())
}

} // verus!
