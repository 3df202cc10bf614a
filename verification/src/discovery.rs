//! Template discovery: the built-in templates, and the ones a project or a
//! user keeps in `.rok/templates`.
//!
//! Finding and reading the `.rok-template.json` files is the caller's part;
//! what they describe is turned into template descriptions here.
use crate::text::{opt_text, owned, same_text, views};
use vstd::prelude::*;

verus! {

/// What a template is and what it writes.
#[derive(Debug)]
pub struct TemplateInfo {
    pub name: String,
    pub description: String,
    pub version: String,
    pub author: String,
    pub tags: Vec<String>,
    pub source: TemplateSource,
    pub props: Vec<(String, PropInfo)>,
    pub outputs: Vec<TemplateOutput>,
}

/// Where a template comes from.
#[derive(Debug, Clone, Copy, PartialEq, Eq, Structural)]
pub enum TemplateSource {
    BuiltIn,
    Project,
    User,
}

/// A property a template takes.
#[derive(Debug)]
pub struct PropInfo {
    pub prop_type: String,
    pub required: bool,
    pub description: String,
    pub example: Option<String>,
    pub default: Option<String>,
    pub values: Option<Vec<String>>,
}

/// One file a template writes: from which template file, to which path,
/// under which condition.
#[derive(Debug)]
pub struct TemplateOutput {
    pub from: String,
    pub to: String,
    pub condition: Option<String>,
}

/// A template's description file as written.
#[derive(Debug)]
pub struct TemplateSchema {
    pub name: String,
    pub description: String,
    pub version: String,
    pub author: String,
    pub tags: Vec<String>,
    pub output: Vec<TemplateOutput>,
    pub props: Vec<(String, PropDefinition)>,
}

/// A property as a description file defines it.
#[derive(Debug)]
pub struct PropDefinition {
    pub prop_type: String,
    pub required: bool,
    pub description: String,
    pub example: Option<String>,
    pub default: Option<String>,
    pub values: Option<Vec<String>>,
}

/// The version of a template whose description gives none.
pub fn default_version() -> (r: String)
    ensures
        r@ == "1.0.0"@,
{
    owned("1.0.0")
}

/// Finds templates.
#[derive(Debug)]
pub struct TemplateDiscovery;

/// The name, description, tags, props (name, description, example) and
/// output path of built-in template `i`, by characters.
pub open spec fn builtin_entry(i: int) -> (Seq<char>, Seq<char>, Seq<Seq<char>>, Seq<(Seq<char>, Seq<char>, Seq<char>)>, Seq<char>) {
    if i == 0 {
        ("react-route"@, "TanStack React Router file-based route"@, seq!["react"@, "route"@, "tanstack"@], seq![("component"@, "Component name"@, "Dashboard"@), ("path"@, "Route path"@, "/dashboard"@)], "{{dir}}/{{kebab_case name}}.tsx"@)
    } else if i == 1 {
        ("react-component"@, "React functional component with TypeScript"@, seq!["react"@, "component"@, "typescript"@], seq![("name"@, "Component name (PascalCase)"@, "Button"@)], "{{kebab_case name}}.tsx"@)
    } else if i == 2 {
        ("api-handler"@, "TanStack Start API handler"@, seq!["api"@, "handler"@, "tanstack"@], seq![("name"@, "Handler name"@, "getUsers"@)], "{{kebab_case name}}.ts"@)
    } else if i == 3 {
        ("rust-module"@, "Rust module with greeting function"@, seq!["rust"@, "module"@], seq![("name"@, "Module name"@, "greeting"@)], "{{snake_case name}}.rs"@)
    } else {
        ("test-file"@, "Vitest test file"@, seq!["test"@, "vitest"@], seq![("name"@, "Test subject name"@, "MyComponent"@)], "{{kebab_case name}}.test.ts"@)
    }
}

/// A property of a built-in template: a required string.
pub open spec fn is_builtin_prop(p: PropInfo, e: (Seq<char>, Seq<char>, Seq<char>)) -> bool {
    &&& p.prop_type@ == "string"@
    &&& p.required
    &&& p.description@ == e.1
    &&& opt_text(p.example) == Some(e.2)
    &&& p.default is None
    &&& p.values is None
}

/// `t` is built-in template `i`.
pub open spec fn is_builtin(t: TemplateInfo, i: int) -> bool {
    let (n, d, tags, props, to) = builtin_entry(i);
    &&& t.name@ == n
    &&& t.description@ == d
    &&& t.version@ == "1.0.0"@
    &&& t.author@ == "rok"@
    &&& views(t.tags@) == tags
    &&& t.source == TemplateSource::BuiltIn
    &&& t.props@.len() == props.len()
    &&& forall|j: int|
        0 <= j < props.len() ==> (#[trigger] t.props@[j]).0@ == props[j].0 && is_builtin_prop(
            t.props@[j].1,
            props[j],
        )
    &&& t.outputs@.len() == 1
    &&& t.outputs@[0].from@ == n
    &&& t.outputs@[0].to@ == to
    &&& t.outputs@[0].condition is None
}

/// A built-in template description.
fn builtin_info(
    name: &str,
    description: &str,
    tags: &[&str],
    props: &[(&str, &str, &str)],
    to: &str,
) -> (t: TemplateInfo)
    ensures
        t.name@ == name@,
        t.description@ == description@,
        t.version@ == "1.0.0"@,
        t.author@ == "rok"@,
        views(t.tags@) == tags@.map_values(|s: &str| s@),
        t.source == TemplateSource::BuiltIn,
        t.props@.len() == props@.len(),
        forall|j: int|
            0 <= j < props@.len() ==> (#[trigger] t.props@[j]).0@ == props@[j].0@
                && is_builtin_prop(t.props@[j].1, (props@[j].0@, props@[j].1@, props@[j].2@)),
        t.outputs@.len() == 1,
        t.outputs@[0].from@ == name@,
        t.outputs@[0].to@ == to@,
        t.outputs@[0].condition is None,
{
    let mut tag_list: Vec<String> = Vec::new();
    let mut i: usize = 0;
    while i < tags.len()
        invariant
            i <= tags.len(),
            views(tag_list@) == tags@.take(i as int).map_values(|s: &str| s@),
        decreases tags.len() - i,
    {
        let ghost prev = tag_list@;
        tag_list.push(owned(tags[i]));
        assert(views(tag_list@) =~= views(prev).push(tags@[i as int]@));
        assert(tags@.take(i + 1).map_values(|s: &str| s@) =~= tags@.take(i as int).map_values(
            |s: &str| s@,
        ).push(tags@[i as int]@));
        i = i + 1;
    }
    assert(tags@.take(tags.len() as int) =~= tags@);
    let mut prop_list: Vec<(String, PropInfo)> = Vec::new();
    let mut k: usize = 0;
    while k < props.len()
        invariant
            k <= props.len(),
            prop_list@.len() == k,
            forall|j: int|
                0 <= j < k ==> (#[trigger] prop_list@[j]).0@ == props@[j].0@ && is_builtin_prop(
                    prop_list@[j].1,
                    (props@[j].0@, props@[j].1@, props@[j].2@),
                ),
        decreases props.len() - k,
    {
        let (pn, pd, pe) = props[k];
        prop_list.push(
            (
                owned(pn),
                PropInfo {
                    prop_type: owned("string"),
                    required: true,
                    description: owned(pd),
                    example: Some(owned(pe)),
                    default: None,
                    values: None,
                },
            ),
        );
        k = k + 1;
    }
    let mut outputs: Vec<TemplateOutput> = Vec::new();
    outputs.push(TemplateOutput { from: owned(name), to: owned(to), condition: None });
    TemplateInfo {
        name: owned(name),
        description: owned(description),
        version: default_version(),
        author: owned("rok"),
        tags: tag_list,
        source: TemplateSource::BuiltIn,
        props: prop_list,
        outputs,
    }
}

/// The description of a template read from a description file, with the
/// given origin.
pub open spec fn from_schema(t: TemplateInfo, s: TemplateSchema, source: TemplateSource) -> bool {
    &&& t.name == s.name
    &&& t.description == s.description
    &&& t.version == s.version
    &&& t.author == s.author
    &&& t.tags == s.tags
    &&& t.source == source
    &&& t.outputs == s.output
    &&& t.props@.len() == s.props@.len()
    &&& forall|j: int|
        0 <= j < s.props@.len() ==> {
            let (k, d) = s.props@[j];
            let (k2, p) = #[trigger] t.props@[j];
            &&& k2 == k
            &&& p.prop_type == d.prop_type
            &&& p.required == d.required
            &&& p.description == d.description
            &&& p.example == d.example
            &&& p.default == d.default
            &&& p.values == d.values
        }
}

impl TemplateDiscovery {
    pub fn discover_builtin() -> (r: Vec<TemplateInfo>)
        ensures
            r@.len() == 5,
            forall|i: int| 0 <= i < 5 ==> is_builtin(#[trigger] r@[i], i),
    {
        let mut r: Vec<TemplateInfo> = Vec::new();
        let t = builtin_info("react-route", "TanStack React Router file-based route", &["react", "route", "tanstack"], &[("component", "Component name", "Dashboard"), ("path", "Route path", "/dashboard")], "{{dir}}/{{kebab_case name}}.tsx");
        assert(views(t.tags@) =~= seq!["react"@, "route"@, "tanstack"@]);
        assert(is_builtin(t, 0));
        r.push(t);
        let t = builtin_info("react-component", "React functional component with TypeScript", &["react", "component", "typescript"], &[("name", "Component name (PascalCase)", "Button")], "{{kebab_case name}}.tsx");
        assert(views(t.tags@) =~= seq!["react"@, "component"@, "typescript"@]);
        assert(is_builtin(t, 1));
        r.push(t);
        let t = builtin_info("api-handler", "TanStack Start API handler", &["api", "handler", "tanstack"], &[("name", "Handler name", "getUsers")], "{{kebab_case name}}.ts");
        assert(views(t.tags@) =~= seq!["api"@, "handler"@, "tanstack"@]);
        assert(is_builtin(t, 2));
        r.push(t);
        let t = builtin_info("rust-module", "Rust module with greeting function", &["rust", "module"], &[("name", "Module name", "greeting")], "{{snake_case name}}.rs");
        assert(views(t.tags@) =~= seq!["rust"@, "module"@]);
        assert(is_builtin(t, 3));
        r.push(t);
        let t = builtin_info("test-file", "Vitest test file", &["test", "vitest"], &[("name", "Test subject name", "MyComponent")], "{{kebab_case name}}.test.ts");
        assert(views(t.tags@) =~= seq!["test"@, "vitest"@]);
        assert(is_builtin(t, 4));
        r.push(t);
        r
    }

    /// The description of a template from its description file.
    pub fn info_from_schema(schema: TemplateSchema, source: TemplateSource) -> (t: TemplateInfo)
        ensures
            from_schema(t, schema, source),
    {
        let TemplateSchema { name, description, version, author, tags, output, props } = schema;
        let ghost old_props = props@;
        let mut props = props;
        let mut converted: Vec<(String, PropInfo)> = Vec::new();
        let mut rev: Vec<(String, PropDefinition)> = Vec::new();
        while props.len() > 0
            invariant
                props@ + rev@.reverse() == old_props,
            decreases props.len(),
        {
            let ghost before = props@;
            let last = props.pop().unwrap();
            let ghost r0 = rev@;
            rev.push(last);
            assert(props@ + rev@.reverse() =~= before.drop_last() + seq![before.last()] + r0.reverse());
            assert(before =~= before.drop_last() + seq![before.last()]);
        }
        assert(rev@.reverse() =~= old_props);
        while rev.len() > 0
            invariant
                converted@.len() + rev@.len() == old_props.len(),
                rev@.reverse() == old_props.skip(converted@.len() as int),
                forall|j: int|
                    0 <= j < converted@.len() ==> {
                        let (k, d) = old_props[j];
                        let (k2, p) = #[trigger] converted@[j];
                        &&& k2 == k
                        &&& p.prop_type == d.prop_type
                        &&& p.required == d.required
                        &&& p.description == d.description
                        &&& p.example == d.example
                        &&& p.default == d.default
                        &&& p.values == d.values
                    },
            decreases rev.len(),
        {
            let ghost rv = rev@;
            let ghost n = converted@.len();
            let (k, d) = rev.pop().unwrap();
            assert(rv.reverse()[0] == rv.last());
            assert(old_props.skip(n as int)[0] == old_props[n as int]);
            assert(rev@.reverse() =~= old_props.skip(n as int + 1)) by {
                assert(rv.reverse().skip(1) =~= rev@.reverse());
                assert(old_props.skip(n as int).skip(1) =~= old_props.skip(n as int + 1));
            }
            let PropDefinition { prop_type, required, description, example, default, values } = d;
            converted.push(
                (k, PropInfo { prop_type, required, description, example, default, values }),
            );
        }
        TemplateInfo {
            name,
            description,
            version,
            author,
            tags,
            source,
            props: converted,
            outputs: output,
        }
    }

    /// All templates: the built-in ones, then the project's, then the user's
    /// (each from its description file, in the order found).
    pub fn discover(project: Vec<TemplateSchema>, user: Vec<TemplateSchema>) -> (r: Vec<TemplateInfo>)
        ensures
            r@.len() == 5 + project@.len() + user@.len(),
            forall|i: int| 0 <= i < 5 ==> is_builtin(#[trigger] r@[i], i),
            forall|i: int|
                0 <= i < project@.len() ==> from_schema(
                    #[trigger] r@[5 + i],
                    project@[i],
                    TemplateSource::Project,
                ),
            forall|i: int|
                0 <= i < user@.len() ==> from_schema(
                    #[trigger] r@[5 + project@.len() + i],
                    user@[i],
                    TemplateSource::User,
                ),
    {
        let mut r = Self::discover_builtin();
        let ghost r0 = r@;
        let ghost pr = project@;
        Self::append_found(&mut r, project, TemplateSource::Project);
        let ghost r1 = r@;
        assert forall|i: int| 0 <= i < 5 implies r1[i] == r0[i] by {
            assert(r1.take(5)[i] == r1[i]);
        }
        Self::append_found(&mut r, user, TemplateSource::User);
        assert forall|i: int| 0 <= i < 5 + pr.len() implies r@[i] == r1[i] by {
            assert(r@.take(r1.len() as int)[i] == r@[i]);
        }
        assert forall|i: int| 0 <= i < 5 implies is_builtin(#[trigger] r@[i], i) by {
            assert(r@[i] == r0[i]);
        }
        assert forall|i: int| 0 <= i < pr.len() implies from_schema(
            #[trigger] r@[5 + i],
            pr[i],
            TemplateSource::Project,
        ) by {
            assert(r@[5 + i] == r1[5 + i]);
        }
        r
    }

    /// Appends the templates described by `found`, with origin `source`.
    fn append_found(r: &mut Vec<TemplateInfo>, found: Vec<TemplateSchema>, source: TemplateSource)
        ensures
            final(r)@.len() == old(r)@.len() + found@.len(),
            final(r)@.take(old(r)@.len() as int) == old(r)@,
            forall|i: int|
                0 <= i < found@.len() ==> from_schema(
                    #[trigger] final(r)@[old(r)@.len() + i],
                    found@[i],
                    source,
                ),
    {
        let ghost start = r@;
        let ghost all = found@;
        let mut found = found;
        let mut rev: Vec<TemplateSchema> = Vec::new();
        while found.len() > 0
            invariant
                found@ + rev@.reverse() == all,
            decreases found.len(),
        {
            let ghost before = found@;
            let last = found.pop().unwrap();
            let ghost r0 = rev@;
            rev.push(last);
            assert(found@ + rev@.reverse() =~= before.drop_last() + seq![before.last()] + r0.reverse());
            assert(before =~= before.drop_last() + seq![before.last()]);
        }
        assert(rev@.reverse() =~= all);
        while rev.len() > 0
            invariant
                r@.len() == start.len() + (all.len() - rev@.len()),
                rev@.len() <= all.len(),
                r@.take(start.len() as int) == start,
                rev@.reverse() == all.skip(all.len() - rev@.len()),
                forall|i: int|
                    0 <= i < all.len() - rev@.len() ==> from_schema(
                        #[trigger] r@[start.len() + i],
                        all[i],
                        source,
                    ),
            decreases rev.len(),
        {
            let ghost rv = rev@;
            let ghost n = all.len() - rev@.len();
            let s = rev.pop().unwrap();
            assert(rv.reverse()[0] == rv.last());
            assert(all.skip(n)[0] == all[n]);
            assert(rev@.reverse() =~= all.skip(n + 1)) by {
                assert(rv.reverse().skip(1) =~= rev@.reverse());
                assert(all.skip(n).skip(1) =~= all.skip(n + 1));
            }
            let ghost before = r@;
            let t = Self::info_from_schema(s, source);
            r.push(t);
            assert(r@.take(start.len() as int) =~= before.take(start.len() as int));
        }
    }
}

/// All templates: the built-in ones, then the project's, then the user's.
pub fn list_templates(project: Vec<TemplateSchema>, user: Vec<TemplateSchema>) -> (r: Vec<TemplateInfo>)
    ensures
        r@.len() == 5 + project@.len() + user@.len(),
        forall|i: int| 0 <= i < 5 ==> is_builtin(#[trigger] r@[i], i),
        forall|i: int|
            0 <= i < project@.len() ==> from_schema(
                #[trigger] r@[5 + i],
                project@[i],
                TemplateSource::Project,
            ),
        forall|i: int|
            0 <= i < user@.len() ==> from_schema(
                #[trigger] r@[5 + project@.len() + i],
                user@[i],
                TemplateSource::User,
            ),
{
    TemplateDiscovery::discover(project, user)
}

/// The template files a custom template named `name` may come from, in the
/// order to try them: for each template of that name that writes something,
/// its name and the template file of its first output.
pub open spec fn custom_candidates(name: Seq<char>, templates: Seq<TemplateInfo>) -> Seq<(Seq<char>, Seq<char>)>
    decreases templates.len(),
{
    if templates.len() == 0 {
        Seq::empty()
    } else {
        let r = custom_candidates(name, templates.drop_last());
        let t = templates.last();
        if t.name@ == name && t.outputs@.len() > 0 {
            r.push((t.name@, t.outputs@[0].from@))
        } else {
            r
        }
    }
}

/// The template files a custom template named `name` may come from.
pub fn custom_template_files(name: &str, templates: &[TemplateInfo]) -> (r: Vec<(String, String)>)
    ensures
        crate::text::pair_views(r@) == custom_candidates(name@, templates@),
{
    let mut r: Vec<(String, String)> = Vec::new();
    let mut i: usize = 0;
    while i < templates.len()
        invariant
            i <= templates.len(),
            crate::text::pair_views(r@) == custom_candidates(name@, templates@.take(i as int)),
        decreases templates.len() - i,
    {
        assert(templates@.take(i + 1).drop_last() =~= templates@.take(i as int));
        assert(templates@.take(i + 1).last() == templates@[i as int]);
        let t = &templates[i];
        if same_text(t.name.as_str(), name) && t.outputs.len() > 0 {
            let ghost prev = r@;
            r.push((t.name.clone(), t.outputs[0].from.clone()));
            assert(crate::text::pair_views(r@) =~= crate::text::pair_views(prev).push(
                (t.name@, t.outputs@[0].from@),
            ));
        }
        i = i + 1;
    }
    assert(templates@.take(templates.len() as int) =~= templates@);
    r
}

} // verus!
