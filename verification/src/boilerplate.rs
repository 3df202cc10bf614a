//! Boilerplate for source files: comment headers, license texts, shebangs
//! and standard imports.
use crate::casing::{lower, str_to_lowercase};
use crate::text::{
    chars_of, contains_spec, contains_str, join_spec, lines_of, lines_spec, owned, push_str,
    same_text, starts_with_spec, starts_with_str, string_of, views, vviews,
};
use vstd::prelude::*;

verus! {

/// The comment style of each file extension.
pub open spec fn is_c_like(ext: Seq<char>) -> bool {
    ext == "rs"@ || ext == "go"@ || ext == "ts"@ || ext == "tsx"@ || ext == "js"@ || ext == "jsx"@
        || ext == "c"@ || ext == "cpp"@ || ext == "h"@ || ext == "hpp"@
}

/// Every line with `prefix` in front.
pub open spec fn prefixed(ls: Seq<Seq<char>>, prefix: Seq<char>) -> Seq<Seq<char>> {
    ls.map_values(|l: Seq<char>| prefix + l)
}

/// `text` as a comment in the language of extension `ext`.
pub open spec fn comment_spec(text: Seq<char>, ext: Seq<char>) -> Seq<char> {
    if ext == "py"@ {
        join_spec(prefixed(lines_spec(text), "# "@), "\n"@)
    } else if is_c_like(ext) {
        if lines_spec(text).len() > 1 {
            "/*\n"@ + join_spec(prefixed(lines_spec(text), " * "@), "\n"@) + "\n */"@
        } else {
            "// "@ + text
        }
    } else if ext == "html"@ || ext == "xml"@ {
        "<!-- "@ + text + " -->"@
    } else if ext == "css"@ || ext == "scss"@ || ext == "less"@ {
        "/* "@ + text + " */"@
    } else if ext == "lua"@ || ext == "sql"@ {
        join_spec(prefixed(lines_spec(text), "-- "@), "\n"@)
    } else {
        text
    }
}

/// The lines of `text`, each with `prefix` in front, joined by `\n`.
fn prefixed_lines(text: &str, prefix: &str) -> (r: String)
    ensures
        r@ == join_spec(prefixed(lines_spec(text@), prefix@), "\n"@),
{
    let cv = chars_of(text);
    let ls = lines_of(cv.as_slice());
    let mut parts: Vec<String> = Vec::new();
    let mut i: usize = 0;
    while i < ls.len()
        invariant
            i <= ls.len(),
            vviews(ls@) == lines_spec(text@),
            views(parts@) == prefixed(vviews(ls@).take(i as int), prefix@),
        decreases ls.len() - i,
    {
        let mut p = owned(prefix);
        let l = string_of(ls[i].as_slice());
        push_str(&mut p, l.as_str());
        let ghost before = parts@;
        parts.push(p);
        assert(views(parts@) =~= views(before).push(prefix@ + ls@[i as int]@));
        assert(prefixed(vviews(ls@).take(i + 1), prefix@) =~= prefixed(vviews(ls@).take(i as int), prefix@).push(prefix@ + ls@[i as int]@));
        i = i + 1;
    }
    assert(vviews(ls@).take(ls.len() as int) =~= vviews(ls@));
    crate::text::join_strings(parts.as_slice(), "\n")
}

/// `text` as a comment in the language of extension `ext`: line comments
/// for Python, Lua and SQL; a block comment (or a line comment for one
/// line) for C-like languages; markup and stylesheet comments; the text
/// itself for anything else.
pub fn format_comment(text: &str, ext: &str) -> (r: String)
    ensures
        r@ == comment_spec(text@, ext@),
{
    if same_text(ext, "py") {
        prefixed_lines(text, "# ")
    } else if same_text(ext, "rs") || same_text(ext, "go") || same_text(ext, "ts") || same_text(ext, "tsx")
        || same_text(ext, "js") || same_text(ext, "jsx") || same_text(ext, "c") || same_text(ext, "cpp")
        || same_text(ext, "h") || same_text(ext, "hpp") {
        let cv = chars_of(text);
        let ls = lines_of(cv.as_slice());
        if ls.len() > 1 {
            let mut r = owned("/*\n");
            let body = prefixed_lines(text, " * ");
            push_str(&mut r, body.as_str());
            push_str(&mut r, "\n */");
            r
        } else {
            let mut r = owned("// ");
            push_str(&mut r, text);
            r
        }
    } else if same_text(ext, "html") || same_text(ext, "xml") {
        let mut r = owned("<!-- ");
        push_str(&mut r, text);
        push_str(&mut r, " -->");
        r
    } else if same_text(ext, "css") || same_text(ext, "scss") || same_text(ext, "less") {
        let mut r = owned("/* ");
        push_str(&mut r, text);
        push_str(&mut r, " */");
        r
    } else if same_text(ext, "lua") || same_text(ext, "sql") {
        prefixed_lines(text, "-- ")
    } else {
        owned(text)
    }
}

/// The text of a license by its (case-insensitive) name; an unknown name
/// stands for itself, lowercased.
pub open spec fn license_spec(license: Seq<char>) -> Seq<char> {
    let l = lower(license);
    if l == "mit"@ {
        "MIT License\n\nCopyright (c) 2024\n\nPermission is hereby granted..."@
    } else if l == "apache"@ {
        "Apache License 2.0\n\nLicensed under the Apache License..."@
    } else if l == "gpl"@ {
        "GNU General Public License v3.0\n\nThis program is free software..."@
    } else if l == "bsd"@ {
        "BSD 3-Clause License\n\nCopyright (c) 2024..."@
    } else if l == "isc"@ {
        "ISC License\n\nCopyright (c) 2024..."@
    } else if l == "unlicense"@ {
        "This is free and unencumbered software released into the public domain."@
    } else {
        l
    }
}

pub fn get_license_text(license: &str) -> (r: String)
    ensures
        r@ == license_spec(license@),
{
    let l = str_to_lowercase(license);
    let s = l.as_str();
    if same_text(s, "mit") {
        owned("MIT License\n\nCopyright (c) 2024\n\nPermission is hereby granted...")
    } else if same_text(s, "apache") {
        owned("Apache License 2.0\n\nLicensed under the Apache License...")
    } else if same_text(s, "gpl") {
        owned("GNU General Public License v3.0\n\nThis program is free software...")
    } else if same_text(s, "bsd") {
        owned("BSD 3-Clause License\n\nCopyright (c) 2024...")
    } else if same_text(s, "isc") {
        owned("ISC License\n\nCopyright (c) 2024...")
    } else if same_text(s, "unlicense") {
        owned("This is free and unencumbered software released into the public domain.")
    } else {
        l
    }
}

/// The lines of `content` with the standard imports it lacks put first
/// (each new one above the previous), and the names of what was added.
pub open spec fn standard_imports_spec(content: Seq<char>, ext: Seq<char>) -> (Seq<Seq<char>>, Seq<Seq<char>>) {
    let ls = lines_spec(content);
    if ext == "js"@ || ext == "jsx"@ || ext == "ts"@ || ext == "tsx"@ {
        let a = contains_spec(content, "useState"@) && !contains_spec(content, "import"@)
            && !contains_spec(content, "import { useState"@);
        let b = contains_spec(content, "useEffect"@) && !contains_spec(content, "import { useEffect"@);
        let c = contains_spec(content, "useCallback"@) && !contains_spec(content, "import { useCallback"@);
        let l1 = if a { seq!["import { useState } from 'react';"@] + ls } else { ls };
        let n1 = if a { seq!["useState"@] } else { Seq::empty() };
        let l2 = if b { seq!["import { useEffect } from 'react';"@] + l1 } else { l1 };
        let n2 = if b { n1.push("useEffect"@) } else { n1 };
        let l3 = if c { seq!["import { useCallback } from 'react';"@] + l2 } else { l2 };
        let n3 = if c { n2.push("useCallback"@) } else { n2 };
        (l3, n3)
    } else if ext == "py"@ {
        if contains_spec(content, "typing"@) && !contains_spec(content, "from typing import"@) {
            (seq!["from typing import List, Dict, Optional"@] + ls, seq!["typing"@])
        } else {
            (ls, Seq::empty())
        }
    } else if ext == "rs"@ {
        if contains_spec(content, "std::"@) && !contains_spec(content, "use std::"@) {
            (seq!["use std::collections::HashMap;"@] + ls, seq!["std::collections::HashMap"@])
        } else {
            (ls, Seq::empty())
        }
    } else {
        (ls, Seq::empty())
    }
}

/// Puts `line` in front of the lines.
fn put_first(ls: &mut Vec<Vec<char>>, line: &str)
    ensures
        vviews(final(ls)@) == seq![line@] + vviews(old(ls)@),
{
    let v = chars_of(line);
    let ghost before = vviews(ls@);
    ls.insert(0, v);
    assert(vviews(ls@) =~= seq![line@] + before);
}

/// Adds the standard imports a file of extension `ext` uses but lacks;
/// returns the new content (lines joined by `\n`) and what was added.
pub fn add_standard_imports(content: &str, ext: &str) -> (r: (String, Vec<String>))
    ensures
        r.0@ == join_spec(standard_imports_spec(content@, ext@).0, "\n"@),
        views(r.1@) == standard_imports_spec(content@, ext@).1,
{
    let cv = chars_of(content);
    let mut ls = lines_of(cv.as_slice());
    let mut added: Vec<String> = Vec::new();
    if same_text(ext, "js") || same_text(ext, "jsx") || same_text(ext, "ts") || same_text(ext, "tsx") {
        let a = contains_str(content, "useState") && !contains_str(content, "import")
            && !contains_str(content, "import { useState");
        let b = contains_str(content, "useEffect") && !contains_str(content, "import { useEffect");
        let c = contains_str(content, "useCallback") && !contains_str(content, "import { useCallback");
        if a {
            put_first(&mut ls, "import { useState } from 'react';");
            added.push(owned("useState"));
        }
        if b {
            put_first(&mut ls, "import { useEffect } from 'react';");
            let ghost before = added@;
            added.push(owned("useEffect"));
            assert(views(added@) =~= views(before).push("useEffect"@));
        }
        if c {
            put_first(&mut ls, "import { useCallback } from 'react';");
            let ghost before = added@;
            added.push(owned("useCallback"));
            assert(views(added@) =~= views(before).push("useCallback"@));
        }
        assert(views(added@) =~= standard_imports_spec(content@, ext@).1);
    } else if same_text(ext, "py") {
        if contains_str(content, "typing") && !contains_str(content, "from typing import") {
            put_first(&mut ls, "from typing import List, Dict, Optional");
            added.push(owned("typing"));
        }
        assert(views(added@) =~= standard_imports_spec(content@, ext@).1);
    } else if same_text(ext, "rs") {
        if contains_str(content, "std::") && !contains_str(content, "use std::") {
            put_first(&mut ls, "use std::collections::HashMap;");
            added.push(owned("std::collections::HashMap"));
        }
        assert(views(added@) =~= standard_imports_spec(content@, ext@).1);
    } else {
        assert(views(added@) =~= standard_imports_spec(content@, ext@).1);
    }
    (crate::text::join_chars(ls.as_slice(), "\n"), added)
}

/// What adding boilerplate did.
#[derive(Debug)]
pub struct BoilerplateOutcome {
    pub content: String,
    pub header_added: bool,
    pub license_added: bool,
    pub shebang_added: bool,
    pub imports_added: Vec<String>,
}

/// `piece` and a line feed in front of `content`.
pub open spec fn prepend(piece: Seq<char>, content: Seq<char>) -> Seq<char> {
    piece + "\n"@ + content
}

/// Adds boilerplate to `content`: the shebang unless there is one, the
/// header and the license as comments unless the content holds them, then
/// (if asked) the standard imports.
pub fn apply_boilerplate(
    content: &str,
    ext: &str,
    header: Option<&str>,
    license: Option<&str>,
    shebang: Option<&str>,
    auto_imports: bool,
) -> (r: BoilerplateOutcome)
    ensures
        ({
            let c1 = match shebang {
                Some(s) => if !starts_with_spec(content@, "#!"@) {
                    prepend(s@, content@)
                } else {
                    content@
                },
                None => content@,
            };
            let c2 = match header {
                Some(h) => if !contains_spec(c1, comment_spec(h@, ext@)) {
                    prepend(comment_spec(h@, ext@), c1)
                } else {
                    c1
                },
                None => c1,
            };
            let lc = match license {
                Some(l) => comment_spec(license_spec(l@), ext@),
                None => Seq::empty(),
            };
            let c3 = match license {
                Some(l) => if !contains_spec(c2, lc) {
                    prepend(lc, c2)
                } else {
                    c2
                },
                None => c2,
            };
            &&& r.shebang_added == (shebang is Some && !starts_with_spec(content@, "#!"@))
            &&& r.header_added == (header is Some && !contains_spec(
                c1,
                comment_spec(header->0@, ext@),
            ))
            &&& r.license_added == (license is Some && !contains_spec(c2, lc))
            &&& (auto_imports ==> r.content@ == join_spec(standard_imports_spec(c3, ext@).0, "\n"@)
                && views(r.imports_added@) == standard_imports_spec(c3, ext@).1)
            &&& (!auto_imports ==> r.content@ == c3 && r.imports_added@.len() == 0)
        }),
{
    let mut c = owned(content);
    let mut shebang_added = false;
    let mut header_added = false;
    let mut license_added = false;
    match shebang {
        Some(s) => {
            if !starts_with_str(content, "#!") {
                let mut n = owned(s);
                push_str(&mut n, "\n");
                push_str(&mut n, content);
                c = n;
                shebang_added = true;
            }
        },
        None => {},
    }
    match header {
        Some(h) => {
            let hc = format_comment(h, ext);
            if !contains_str(c.as_str(), hc.as_str()) {
                let mut n = hc;
                push_str(&mut n, "\n");
                push_str(&mut n, c.as_str());
                c = n;
                header_added = true;
            }
        },
        None => {},
    }
    match license {
        Some(l) => {
            let text = get_license_text(l);
            let lc = format_comment(text.as_str(), ext);
            if !contains_str(c.as_str(), lc.as_str()) {
                let mut n = lc;
                push_str(&mut n, "\n");
                push_str(&mut n, c.as_str());
                c = n;
                license_added = true;
            }
        },
        None => {},
    }
    if auto_imports {
        let (nc, added) = add_standard_imports(c.as_str(), ext);
        BoilerplateOutcome { content: nc, header_added, license_added, shebang_added, imports_added: added }
    } else {
        BoilerplateOutcome { content: c, header_added, license_added, shebang_added, imports_added: Vec::new() }
    }
}

} // verus!
