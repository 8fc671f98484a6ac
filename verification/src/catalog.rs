//! The license catalog: a static mapping from lowercase license identifiers
//! (and their recognized synonyms) to license template texts.
//!
//! Every template starts with the same attribution line, which carries the
//! two placeholder tokens that resolution substitutes: the copyright-holders
//! token and the year token.
use vstd::prelude::*;
use crate::text::occurs_at;

verus! {

/// The attribution line that opens every template, holding both placeholder
/// tokens, followed by a blank line.
pub const TEMPLATE_HEADER: &'static str = "Copyright (c) `<copyright holders>` `<year>`\n\n";

/// The placeholder replaced by the current year.
pub const YEAR_TOKEN: &'static str = "`<year>`";

/// The placeholder replaced by the quoted author string.
pub const HOLDERS_TOKEN: &'static str = "`<copyright holders>`";

pub const BODY_0BSD: &'static str = "Permission to use, copy, modify, and/or distribute this software for any purpose with or without fee is hereby granted.\n\nTHE SOFTWARE IS PROVIDED AS IS AND THE AUTHOR DISCLAIMS ALL WARRANTIES WITH REGARD TO THIS SOFTWARE.\n";

pub const BODY_APACHE_2_0: &'static str = "Licensed under the Apache License, Version 2.0 (the License); you may not use this file except in compliance with the License. Unless required by applicable law or agreed to in writing, software distributed under the License is distributed on an AS IS BASIS, WITHOUT WARRANTIES OR CONDITIONS OF ANY KIND, either express or implied.\n";

pub const BODY_APACHE_2_0_LLVM: &'static str = "Licensed under the Apache License, Version 2.0 with LLVM Exceptions. As an exception, if, as a result of your compiling your source code, portions of this software are embedded into an object form of such source code, you may redistribute such embedded portions in such object form without complying with the conditions of Sections 4(a), 4(b) and 4(d) of the License.\n";

pub const BODY_ARTISTIC_2_0: &'static str = "This package is provided under the Artistic License 2.0. Everyone is permitted to copy and distribute verbatim copies of this license document, but changing it is not allowed. You may use, modify and distribute the package under the terms of this license.\n";

pub const BODY_BSD_2: &'static str = "Redistribution and use in source and binary forms, with or without modification, are permitted provided that redistributions retain this copyright notice, this list of conditions and the following disclaimer. THIS SOFTWARE IS PROVIDED BY THE COPYRIGHT HOLDERS AS IS.\n";

pub const BODY_BSD_3: &'static str = "Redistribution and use in source and binary forms, with or without modification, are permitted provided that redistributions retain this copyright notice, and that neither the name of the copyright holder nor the names of its contributors may be used to endorse or promote products derived from this software without specific prior written permission.\n";

pub const BODY_EPL_1_0: &'static str = "This program and the accompanying materials are made available under the terms of the Eclipse Public License v1.0. The Eclipse Public License accompanies this distribution.\n";

pub const BODY_AGPL_3_0: &'static str = "This program is free software: you can redistribute it and/or modify it under the terms of the GNU Affero General Public License as published by the Free Software Foundation, either version 3 of the License, or (at your option) any later version.\n";

pub const BODY_FDL_1_3: &'static str = "Permission is granted to copy, distribute and/or modify this document under the terms of the GNU Free Documentation License, Version 1.3 or any later version published by the Free Software Foundation.\n";

pub const BODY_GPL_1_0: &'static str = "This program is free software; you can redistribute it and/or modify it under the terms of the GNU General Public License as published by the Free Software Foundation; either version 1, or (at your option) any later version.\n";

pub const BODY_GPL_2_0: &'static str = "This program is free software; you can redistribute it and/or modify it under the terms of the GNU General Public License as published by the Free Software Foundation; either version 2 of the License, or (at your option) any later version.\n";

pub const BODY_GPL_3_0: &'static str = "This program is free software: you can redistribute it and/or modify it under the terms of the GNU General Public License as published by the Free Software Foundation, either version 3 of the License, or (at your option) any later version.\n";

pub const BODY_LGPL_2_1: &'static str = "This library is free software; you can redistribute it and/or modify it under the terms of the GNU Lesser General Public License as published by the Free Software Foundation; either version 2.1 of the License, or (at your option) any later version.\n";

pub const BODY_LGPL_3_0: &'static str = "This library is free software: you can redistribute it and/or modify it under the terms of the GNU Lesser General Public License as published by the Free Software Foundation, either version 3 of the License, or (at your option) any later version.\n";

pub const BODY_MIT: &'static str = "Permission is hereby granted, free of charge, to any person obtaining a copy of this software and associated documentation files (the Software), to deal in the Software without restriction. THE SOFTWARE IS PROVIDED AS IS, WITHOUT WARRANTY OF ANY KIND.\n";

pub const BODY_MPL_2_0: &'static str = "This Source Code Form is subject to the terms of the Mozilla Public License, v. 2.0. If a copy of the MPL was not distributed with this file, You can obtain one at https://mozilla.org/MPL/2.0/.\n";

pub const BODY_UNLICENSE: &'static str = "This is free and unencumbered software released into the public domain. Anyone is free to copy, modify, publish, use, compile, sell, or distribute this software, either in source code form or as a compiled binary, for any purpose.\n";

pub const BODY_ZLIB: &'static str = "This software is provided as-is, without any express or implied warranty. Permission is granted to anyone to use this software for any purpose, including commercial applications, and to alter it and redistribute it freely.\n";

pub const BODY_ISC: &'static str = "Permission to use, copy, modify, and/or distribute this software for any purpose with or without fee is hereby granted, provided that the above copyright notice and this permission notice appear in all copies.\n";

pub const BODY_BSL_1_0: &'static str = "Permission is hereby granted, free of charge, to any person or organization obtaining a copy of the software and accompanying documentation covered by this license to use, reproduce, display, distribute, execute, and transmit the Software.\n";

/// The template for a lowercase identifier, or `None` for an identifier the
/// catalog does not know.
pub open spec fn spec_template(id: Seq<char>) -> Option<Seq<char>> {
    if id == ("0bsd")@ {
        Some(TEMPLATE_HEADER@ + BODY_0BSD@)
    } else if id == ("apache-2.0")@ || id == ("apache-v2.0")@ {
        Some(TEMPLATE_HEADER@ + BODY_APACHE_2_0@)
    } else if id == ("apache-2.0 with llvm-exception")@ || id == ("apache-2.0-llvm")@ || id == (
    "apache-v2.0-llvm")@ {
        Some(TEMPLATE_HEADER@ + BODY_APACHE_2_0_LLVM@)
    } else if id == ("artistic-2.0")@ || id == ("artistic-v2.0")@ {
        Some(TEMPLATE_HEADER@ + BODY_ARTISTIC_2_0@)
    } else if id == ("bsd-2-clause")@ || id == ("bsd-2")@ {
        Some(TEMPLATE_HEADER@ + BODY_BSD_2@)
    } else if id == ("bsd-3-clause")@ || id == ("bsd-3")@ {
        Some(TEMPLATE_HEADER@ + BODY_BSD_3@)
    } else if id == ("epl-1.0")@ || id == ("epl-v1.0")@ {
        Some(TEMPLATE_HEADER@ + BODY_EPL_1_0@)
    } else if id == ("agpl-3.0")@ || id == ("gnu-agpl-v3.0")@ {
        Some(TEMPLATE_HEADER@ + BODY_AGPL_3_0@)
    } else if id == ("fdl-1.3")@ || id == ("gnu-fdl-v1.3")@ {
        Some(TEMPLATE_HEADER@ + BODY_FDL_1_3@)
    } else if id == ("gpl-1.0")@ || id == ("gnu-gpl-v1.0")@ {
        Some(TEMPLATE_HEADER@ + BODY_GPL_1_0@)
    } else if id == ("gpl-2.0")@ || id == ("gnu-gpl-v2.0")@ {
        Some(TEMPLATE_HEADER@ + BODY_GPL_2_0@)
    } else if id == ("gpl-3.0")@ || id == ("gnu-gpl-v3.0")@ {
        Some(TEMPLATE_HEADER@ + BODY_GPL_3_0@)
    } else if id == ("lgpl-2.1")@ || id == ("gnu-lgpl-v2.1")@ {
        Some(TEMPLATE_HEADER@ + BODY_LGPL_2_1@)
    } else if id == ("lgpl-3.0")@ || id == ("gnu-lgpl-v3.0")@ {
        Some(TEMPLATE_HEADER@ + BODY_LGPL_3_0@)
    } else if id == ("mit")@ {
        Some(TEMPLATE_HEADER@ + BODY_MIT@)
    } else if id == ("mpl-2.0")@ || id == ("mpl-v2.0")@ {
        Some(TEMPLATE_HEADER@ + BODY_MPL_2_0@)
    } else if id == ("unlicense")@ {
        Some(TEMPLATE_HEADER@ + BODY_UNLICENSE@)
    } else if id == ("zlib")@ {
        Some(TEMPLATE_HEADER@ + BODY_ZLIB@)
    } else if id == ("isc")@ {
        Some(TEMPLATE_HEADER@ + BODY_ISC@)
    } else if id == ("bsl-1.0")@ {
        Some(TEMPLATE_HEADER@ + BODY_BSL_1_0@)
    } else {
        None
    }
}

/// Whether the catalog knows the identifier.
pub open spec fn spec_supported(id: Seq<char>) -> bool {
    spec_template(id) is Some
}

/// The template of a known identifier, or the empty text of an unknown one:
/// the form in which resolution uses the catalog.
pub open spec fn template_or_empty(id: Seq<char>) -> Seq<char> {
    match spec_template(id) {
        Some(t) => t,
        None => Seq::empty(),
    }
}

/// Looks an identifier up in the catalog.
pub fn get_template(id: &str) -> (r: Option<String>)
    ensures
        r.deep_view() == spec_template(id@),
{
    let body: Option<&'static str> = if crate::text::str_eq(id, "0bsd") {
        Some(BODY_0BSD)
    } else if crate::text::str_eq(id, "apache-2.0") || crate::text::str_eq(id, "apache-v2.0") {
        Some(BODY_APACHE_2_0)
    } else if crate::text::str_eq(id, "apache-2.0 with llvm-exception") || crate::text::str_eq(
        id,
        "apache-2.0-llvm",
    ) || crate::text::str_eq(id, "apache-v2.0-llvm") {
        Some(BODY_APACHE_2_0_LLVM)
    } else if crate::text::str_eq(id, "artistic-2.0") || crate::text::str_eq(id, "artistic-v2.0") {
        Some(BODY_ARTISTIC_2_0)
    } else if crate::text::str_eq(id, "bsd-2-clause") || crate::text::str_eq(id, "bsd-2") {
        Some(BODY_BSD_2)
    } else if crate::text::str_eq(id, "bsd-3-clause") || crate::text::str_eq(id, "bsd-3") {
        Some(BODY_BSD_3)
    } else if crate::text::str_eq(id, "epl-1.0") || crate::text::str_eq(id, "epl-v1.0") {
        Some(BODY_EPL_1_0)
    } else if crate::text::str_eq(id, "agpl-3.0") || crate::text::str_eq(id, "gnu-agpl-v3.0") {
        Some(BODY_AGPL_3_0)
    } else if crate::text::str_eq(id, "fdl-1.3") || crate::text::str_eq(id, "gnu-fdl-v1.3") {
        Some(BODY_FDL_1_3)
    } else if crate::text::str_eq(id, "gpl-1.0") || crate::text::str_eq(id, "gnu-gpl-v1.0") {
        Some(BODY_GPL_1_0)
    } else if crate::text::str_eq(id, "gpl-2.0") || crate::text::str_eq(id, "gnu-gpl-v2.0") {
        Some(BODY_GPL_2_0)
    } else if crate::text::str_eq(id, "gpl-3.0") || crate::text::str_eq(id, "gnu-gpl-v3.0") {
        Some(BODY_GPL_3_0)
    } else if crate::text::str_eq(id, "lgpl-2.1") || crate::text::str_eq(id, "gnu-lgpl-v2.1") {
        Some(BODY_LGPL_2_1)
    } else if crate::text::str_eq(id, "lgpl-3.0") || crate::text::str_eq(id, "gnu-lgpl-v3.0") {
        Some(BODY_LGPL_3_0)
    } else if crate::text::str_eq(id, "mit") {
        Some(BODY_MIT)
    } else if crate::text::str_eq(id, "mpl-2.0") || crate::text::str_eq(id, "mpl-v2.0") {
        Some(BODY_MPL_2_0)
    } else if crate::text::str_eq(id, "unlicense") {
        Some(BODY_UNLICENSE)
    } else if crate::text::str_eq(id, "zlib") {
        Some(BODY_ZLIB)
    } else if crate::text::str_eq(id, "isc") {
        Some(BODY_ISC)
    } else if crate::text::str_eq(id, "bsl-1.0") {
        Some(BODY_BSL_1_0)
    } else {
        None
    };
    match body {
        Some(b) => Some(String::from_str(TEMPLATE_HEADER).concat(b)),
        None => None,
    }
}

/// The placeholder tokens stand in every template at fixed positions inside
/// the shared attribution line: the copyright-holders token at 14, the year
/// token at 36 and nowhere earlier.
pub proof fn lemma_header_facts(body: Seq<char>)
    ensures
        (TEMPLATE_HEADER@ + body).len() >= 46,
        occurs_at(TEMPLATE_HEADER@ + body, YEAR_TOKEN@, 36),
        occurs_at(TEMPLATE_HEADER@ + body, HOLDERS_TOKEN@, 14),
        forall|i: int| 0 <= i < 36 ==> !occurs_at(TEMPLATE_HEADER@ + body, YEAR_TOKEN@, i),
{
    reveal_strlit("Copyright (c) `<copyright holders>` `<year>`\n\n");
    reveal_strlit("`<year>`");
    reveal_strlit("`<copyright holders>`");
    let t = TEMPLATE_HEADER@ + body;
    assert(TEMPLATE_HEADER@.len() == 46);
    assert(YEAR_TOKEN@.len() == 8);
    assert(HOLDERS_TOKEN@.len() == 21);
    assert(forall|k: int| 0 <= k < 46 ==> t[k] == TEMPLATE_HEADER@[k]);
    assert(t.subrange(36, 44) =~= YEAR_TOKEN@);
    assert(t.subrange(14, 35) =~= HOLDERS_TOKEN@);
    assert forall|i: int| 0 <= i < 36 implies !occurs_at(t, YEAR_TOKEN@, i) by {
        if occurs_at(t, YEAR_TOKEN@, i) {
            assert(t.subrange(i, i + 8)[0] == t[i]);
            assert(t.subrange(i, i + 8)[1] == t[i + 1]);
            assert(t.subrange(i, i + 8)[2] == t[i + 2]);
            assert(t[i] == '`' && t[i + 1] == '<' && t[i + 2] == 'y');
            assert(false);
        }
    }
}

} // verus!
