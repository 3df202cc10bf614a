//! Templates: the built-in ones, the filters they can use, and rendering
//! them with Tera.
use crate::casing::{lower, upper};
use crate::config::env_map;
use crate::filters::{
    camel_of, camelcase_filter, cap_word, capitalize_filter, kebabcase_filter, lowercase_filter,
    pascal_of, pascalcase_filter, plural, pluralize_filter, runs, separated, singular,
    singularize_filter, snakecase_filter, uppercase_filter, RunKind,
};
use crate::text::{contains_spec, owned, pair_views, same_text};
use std::collections::HashMap;
use vstd::prelude::*;

verus! {

/// The built-in `react-route` template.
pub const REACT_ROUTE: &'static str = r#"import { createFileRoute } from '@tanstack/react-router';
import Component from '{{component}}';

export const Route = createFileRoute('{{path}}')({
  component: Component,
});
"#;

/// The built-in `react-component` template.
pub const REACT_COMPONENT: &'static str = r#"import React from 'react';

interface {{name}}Props {
  className?: string;
}

export function {{name}}({ className }: {{name}}Props) {
  return (
    <div className={className}>
      {{name}} Component
    </div>
  );
}
"#;

/// The built-in `api-handler` template.
pub const API_HANDLER: &'static str = r#"import { json } from '@tanstack/start';

export async function handler(request: Request) {
  const data = {
    message: 'Hello from {{name}}',
    timestamp: new Date().toISOString(),
  };
  
  return json(data);
}
"#;

/// The built-in `rust-module` template.
pub const RUST_MODULE: &'static str = r#"pub mod {{name}} {
    pub fn greet() -> &'static str {
        "Hello from {{name}}!"
    }
}
"#;

/// The built-in `test-file` template.
pub const TEST_FILE: &'static str = r#"import { describe, it, expect } from 'vitest';

describe('{{name}}', () => {
  it('should work', () => {
    expect(true).toBe(true);
  });
});
"#;

/// The text of a built-in template; empty for an unknown name.
pub open spec fn builtin_text(name: Seq<char>) -> Seq<char> {

    if name == "react-route"@ {
        REACT_ROUTE@

    } else if name == "react-component"@ {
        REACT_COMPONENT@

    } else if name == "api-handler"@ {
        API_HANDLER@

    } else if name == "rust-module"@ {
        RUST_MODULE@

    } else if name == "test-file"@ {
        TEST_FILE@

    } else {
        Seq::empty()
    }
}

/// The text of the built-in template `name`; empty for an unknown name.
pub fn get_builtin_template(name: &str) -> (r: String)
    ensures
        r@ == builtin_text(name@),
{

    if same_text(name, "react-route") {
        owned(REACT_ROUTE)

    } else if same_text(name, "react-component") {
        owned(REACT_COMPONENT)

    } else if same_text(name, "api-handler") {
        owned(API_HANDLER)

    } else if same_text(name, "rust-module") {
        owned(RUST_MODULE)

    } else if same_text(name, "test-file") {
        owned(TEST_FILE)

    } else {
        String::new()
    }
}



// ---------------------------------------------------------------------------
// rendering with Tera
// ---------------------------------------------------------------------------

#[verifier::external_type_specification]
#[verifier::external_body]
pub struct ExTera(tera::Tera);

#[verifier::external_type_specification]
#[verifier::external_body]
pub struct ExContext(tera::Context);

/// The filters this library adds to Tera.
#[derive(Debug, Clone, Copy, PartialEq, Eq, Structural)]
pub enum FilterKind {
    Camelcase,
    Snakecase,
    Kebabcase,
    Pascalcase,
    Pluralize,
    Singularize,
    Uppercase,
    Lowercase,
    Capitalize,
}

/// What the filter `k` makes of the text `s`.
pub open spec fn filter_spec(k: FilterKind, s: Seq<char>) -> Seq<char> {
    match k {
        FilterKind::Camelcase => camel_of(runs(s, RunKind::Alnum)),
        FilterKind::Snakecase => separated(s, '_'),
        FilterKind::Kebabcase => separated(s, '-'),
        FilterKind::Pascalcase => pascal_of(runs(s, RunKind::Alnum)),
        FilterKind::Pluralize => plural(s),
        FilterKind::Singularize => singular(s),
        FilterKind::Uppercase => upper(s),
        FilterKind::Lowercase => lower(s),
        FilterKind::Capitalize => cap_word(s),
    }
}

/// Applies the filter `k` to `s`.
pub fn apply_filter(k: FilterKind, s: &str) -> (r: String)
    ensures
        r@ == filter_spec(k, s@),
{
    match k {
        FilterKind::Camelcase => camelcase_filter(s),
        FilterKind::Snakecase => snakecase_filter(s),
        FilterKind::Kebabcase => kebabcase_filter(s),
        FilterKind::Pascalcase => pascalcase_filter(s),
        FilterKind::Pluralize => pluralize_filter(s),
        FilterKind::Singularize => singularize_filter(s),
        FilterKind::Uppercase => uppercase_filter(s),
        FilterKind::Lowercase => lowercase_filter(s),
        FilterKind::Capitalize => capitalize_filter(s),
    }
}

/// The filters this library registers, by the name a template calls them.
pub open spec fn rok_filters() -> Map<Seq<char>, FilterKind> {
    map![
        "camelcase"@ => FilterKind::Camelcase,
        "snakecase"@ => FilterKind::Snakecase,
        "kebabcase"@ => FilterKind::Kebabcase,
        "pascalcase"@ => FilterKind::Pascalcase,
        "pluralize"@ => FilterKind::Pluralize,
        "singularize"@ => FilterKind::Singularize,
        "uppercase"@ => FilterKind::Uppercase,
        "lowercase"@ => FilterKind::Lowercase,
        "capitalize"@ => FilterKind::Capitalize,
    ]
}

/// The filters registered in an engine through [`register_filter`], by name
/// (the entries of its filter table put there after it was made).
pub uninterp spec fn tera_filters(t: tera::Tera) -> Map<Seq<char>, FilterKind>;

/// Whether an engine was made by `Tera::default()` and has had nothing but
/// filters added since.
pub uninterp spec fn tera_from_default(t: tera::Tera) -> bool;

/// The variables a context holds, each bound to a text value.
pub uninterp spec fn context_vars(c: tera::Context) -> Map<Seq<char>, Seq<char>>;

/// What `Tera::render_str` gives for `template` in a default engine with the
/// library filters `filters` added, under the text variables `vars`: the
/// rendered text, or `None` where Tera reports an error.
pub uninterp spec fn tera_render(
    filters: Map<Seq<char>, FilterKind>,
    template: Seq<char>,
    vars: Map<Seq<char>, Seq<char>>,
) -> Option<Seq<char>>;

/// Whether a template names Tera's `get_env` function, which reads the
/// process environment; only such a template can depend on more than its
/// text, its variables and the engine's filters.
pub open spec fn reads_environment(template: Seq<char>) -> bool {
    contains_spec(template, "get_env"@)
}

/// `tera::Tera::default()`: an engine with Tera's own filters, functions
/// and testers, no templates, and none of this library's filters.
#[verifier::external_body]
fn new_tera() -> (r: tera::Tera)
    ensures
        tera_from_default(r),
        tera_filters(r) =~= Map::empty(),
{
    tera::Tera::default()
}

/// `tera::Tera::register_filter` under `name`, with a filter that applies
/// the filter `k` of this library to the text of its input (an input that
/// is not text counts as empty).  Tera inserts the filter into its table
/// under `name`, replacing one of that name; nothing else changes.
#[verifier::external_body]
fn register_filter(t: &mut tera::Tera, name: &str, k: FilterKind)
    ensures
        tera_filters(*final(t)) == tera_filters(*old(t)).insert(name@, k),
        tera_from_default(*final(t)) == tera_from_default(*old(t)),
{
    t.register_filter(
        name,
        move |v: &tera::Value, _: &HashMap<String, tera::Value>| Ok(tera::Value::String(apply_filter(k, v.as_str().unwrap_or("")))),
    );
}

/// Adds this library's filters to an engine, each under its name: the
/// engine then holds the filters it held, with those of [`rok_filters`] put
/// over any of the same name.
pub fn register_filters(t: &mut tera::Tera)
    ensures
        tera_filters(*final(t)) == tera_filters(*old(t)).union_prefer_right(rok_filters()),
        tera_from_default(*final(t)) == tera_from_default(*old(t)),
{
    register_filter(t, "camelcase", FilterKind::Camelcase);
    register_filter(t, "snakecase", FilterKind::Snakecase);
    register_filter(t, "kebabcase", FilterKind::Kebabcase);
    register_filter(t, "pascalcase", FilterKind::Pascalcase);
    register_filter(t, "pluralize", FilterKind::Pluralize);
    register_filter(t, "singularize", FilterKind::Singularize);
    register_filter(t, "uppercase", FilterKind::Uppercase);
    register_filter(t, "lowercase", FilterKind::Lowercase);
    register_filter(t, "capitalize", FilterKind::Capitalize);
    assert(tera_filters(*t) =~= tera_filters(*old(t)).union_prefer_right(rok_filters()));
}

/// `tera::Context::new()`: an empty context.
#[verifier::external_body]
fn new_context() -> (r: tera::Context)
    ensures
        context_vars(r) =~= Map::empty(),
{
    tera::Context::new()
}

/// `tera::Context::insert` of a text value under `key`, replacing what the
/// key held.
#[verifier::external_body]
fn context_insert(c: &mut tera::Context, key: &str, value: &str)
    ensures
        context_vars(*final(c)) == context_vars(*old(c)).insert(key@, value@),
{
    c.insert(key, value);
}

/// `tera::Tera::render_str`: `None` when Tera reports an error.  For an
/// engine made by default with filters added, and a template that does not
/// read the environment, the result is [`tera_render`] of the engine's
/// filters, the template and the context's variables; of a template that
/// names `get_env` nothing is claimed.
#[verifier::external_body]
fn render_str(t: &mut tera::Tera, template: &str, c: &tera::Context) -> (r: Option<String>)
    ensures
        tera_from_default(*old(t)) && !reads_environment(template@) ==> match r {
            Some(s) => tera_render(tera_filters(*old(t)), template@, context_vars(*c)) == Some(s@),
            None => tera_render(tera_filters(*old(t)), template@, context_vars(*c)) is None,
        },
{
    t.render_str(template, c).ok()
}

/// What [`render_template`] gives when Tera renders `template` to `out`
/// (`Some`) or reports an error (`None`): the rendered text, or the template
/// as it is.
pub open spec fn rendered_or_kept(out: Option<Seq<char>>, template: Seq<char>) -> Seq<char> {
    match out {
        Some(s) => s,
        None => template,
    }
}

/// Renders a template with the variables and this library's filters; a
/// template Tera cannot render is kept as it is.  A variable assigned twice
/// takes its last value.
pub fn render_template(template: &str, vars: &[(String, String)]) -> (r: String)
    ensures
        !reads_environment(template@) ==> r@ == rendered_or_kept(
            tera_render(rok_filters(), template@, env_map(pair_views(vars@))),
            template@,
        ),
{
    let mut t = new_tera();
    register_filters(&mut t);
    assert(Map::<Seq<char>, FilterKind>::empty().union_prefer_right(rok_filters()) =~= rok_filters());
    let mut c = new_context();
    let mut i: usize = 0;
    while i < vars.len()
        invariant
            i <= vars.len(),
            context_vars(c) == env_map(pair_views(vars@.take(i as int))),
        decreases vars.len() - i,
    {
        context_insert(&mut c, vars[i].0.as_str(), vars[i].1.as_str());
        assert(pair_views(vars@.take(i + 1)).drop_last() =~= pair_views(vars@.take(i as int)));
        i = i + 1;
    }
    assert(vars@.take(vars.len() as int) =~= vars@);
    match render_str(&mut t, template, &c) {
        Some(out) => out,
        None => owned(template),
    }
}

// ---------------------------------------------------------------------------
// which template a step uses
// ---------------------------------------------------------------------------

/// Where a `template` step takes its template from.
#[derive(Debug, PartialEq, Eq)]
pub enum TemplateChoice {
    /// A project or user template by name.
    Custom(String),
    /// A built-in template, already looked up (empty if unknown).
    Builtin(String),
    /// A file, relative to the working directory.
    SourceFile(String),
    /// Nothing was named.
    Nothing,
}

/// A step names a custom template first, then a built-in one, then a file.
pub fn choose_template(name: &str, builtin: &str, source: &str) -> (r: TemplateChoice)
    ensures
        name@.len() > 0 ==> (r matches TemplateChoice::Custom(n) && n@ == name@),
        name@.len() == 0 && builtin@.len() > 0 ==> (r matches TemplateChoice::Builtin(t) && t@
            == builtin_text(builtin@)),
        name@.len() == 0 && builtin@.len() == 0 && source@.len() > 0 ==> (
        r matches TemplateChoice::SourceFile(p) && p@ == source@),
        name@.len() == 0 && builtin@.len() == 0 && source@.len() == 0 ==> r is Nothing,
{
    if name.unicode_len() > 0 {
        TemplateChoice::Custom(owned(name))
    } else if builtin.unicode_len() > 0 {
        TemplateChoice::Builtin(get_builtin_template(builtin))
    } else if source.unicode_len() > 0 {
        TemplateChoice::SourceFile(owned(source))
    } else {
        TemplateChoice::Nothing
    }
}

} // verus!
