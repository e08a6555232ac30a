//! Declarations built from bean documents, and their text.
use vstd::prelude::*;
use crate::imports::{import_block, import_text, imports_of, kebab_of, resolve_imports, to_kebab};
use crate::order::views;
use crate::resolve::{resolve, resolved_type};
use crate::schema::{PropertyDescriptor, SchemaDocument, SchemaError};
use crate::text::{clean_name, get_simple_name, split_last, without_quotes};

verus! {

/// A declaration ready to be written out.
pub struct ResolvedDeclaration {
    pub name: String,
    /// A `/** ... */` comment.
    pub documentation: String,
    pub is_enum: bool,
    pub parents: Vec<String>,
    pub body_lines: Vec<String>,
    pub imports: Vec<String>,
}

/// What a declaration holds, as text.
pub struct DeclarationView {
    pub name: Seq<char>,
    pub documentation: Seq<char>,
    pub is_enum: bool,
    pub parents: Seq<Seq<char>>,
    pub body_lines: Seq<Seq<char>>,
    pub imports: Seq<Seq<char>>,
}

impl View for ResolvedDeclaration {
    type V = DeclarationView;

    open spec fn view(&self) -> DeclarationView {
        DeclarationView {
            name: self.name@,
            documentation: self.documentation@,
            is_enum: self.is_enum,
            parents: views(self.parents@),
            body_lines: views(self.body_lines@),
            imports: views(self.imports@),
        }
    }
}

/// The rendered file for one bean.
pub struct ConvertedBean {
    /// The file name without extension: the declaration's name in kebab case.
    pub file_stem: String,
    pub text: String,
}

/// A dotted identifier's simple name, without quotes.
pub open spec fn simple_name(s: Seq<char>) -> Seq<char> {
    without_quotes(split_last(s, "."@))
}

/// Description text with each line break followed by an indent.
pub open spec fn doc_text(s: Seq<char>) -> Seq<char>
    decreases s.len(),
{
    if s.len() == 0 {
        s
    } else if s.last() == '\n' {
        doc_text(s.drop_last()) + "\n    "@
    } else {
        doc_text(s.drop_last()).push(s.last())
    }
}

/// The documentation comment of an optional description; a missing one gives
/// an empty comment.
pub open spec fn documentation(d: Option<String>) -> Seq<char> {
    let text = match d {
        Some(s) => s@,
        None => Seq::empty(),
    };
    "/** "@ + doc_text(text) + " */"@
}

/// The member line of an enum constant.
pub open spec fn enum_line(c: Seq<char>, last: bool) -> Seq<char> {
    "  "@ + c + " = \""@ + c + "\""@ + if last {
        Seq::empty()
    } else {
        ","@
    }
}

/// One member line per constant, in order, all but the last with a comma.
pub open spec fn enum_lines(cs: Seq<Seq<char>>) -> Seq<Seq<char>> {
    Seq::new(cs.len(), |i: int| enum_line(cs[i], i == cs.len() - 1))
}

pub open spec fn property_doc_line(p: PropertyDescriptor) -> Seq<char> {
    "  "@ + documentation(p.description)
}

pub open spec fn property_field_line(p: PropertyDescriptor) -> Seq<char> {
    "  "@ + p.name@ + "?: "@ + resolved_type(p.type_desc)->Some_0 + ";"@
}

/// Every property's type resolves.
pub open spec fn properties_resolve(ps: Seq<PropertyDescriptor>) -> bool {
    forall|i: int| 0 <= i < ps.len() ==> (#[trigger] resolved_type(ps[i].type_desc)) is Some
}

/// Two lines per property: its documentation, then its field.
pub open spec fn property_lines(ps: Seq<PropertyDescriptor>) -> Seq<Seq<char>> {
    Seq::new(
        2 * ps.len(),
        |k: int|
            if k % 2 == 0 {
                property_doc_line(ps[k / 2])
            } else {
                property_field_line(ps[k / 2])
            },
    )
}

/// The simple names of the parents, in order.
pub open spec fn parent_names(names: Seq<Seq<char>>) -> Seq<Seq<char>> {
    Seq::new(names.len(), |i: int| simple_name(names[i]))
}

/// The declaration's name.
pub fn get_bean_name(doc: &SchemaDocument) -> (r: String)
    ensures
        r@ == simple_name(doc.name@),
{
    clean_name(get_simple_name(&doc.name))
}

/// The documentation comment of an optional description.
pub fn get_documentation(description: &Option<String>) -> (r: String)
    ensures
        r@ == documentation(*description),
{
    let mut out = String::from_str("/** ");
    match description {
        None => {},
        Some(s) => {
            let n = s.unicode_len();
            let ghost start = out@;
            let mut i: usize = 0;
            while i < n
                invariant
                    n == s@.len(),
                    i <= n,
                    out@ == start + doc_text(s@.subrange(0, i as int)),
                decreases n - i,
            {
                let c = s.as_str().get_char(i);
                assert(s@.subrange(0, i + 1).drop_last() =~= s@.subrange(0, i as int));
                if c == '\n' {
                    out.append("\n    ");
                } else {
                    out.append(s.as_str().substring_char(i, i + 1));
                }
                assert(out@ =~= start + doc_text(s@.subrange(0, i + 1)));
                i += 1;
            }
            assert(s@.subrange(0, n as int) =~= s@);
        },
    }
    out.append(" */");
    assert(doc_text(Seq::<char>::empty()) =~= Seq::<char>::empty());
    assert(out@ =~= documentation(*description));
    out
}

/// The member lines of an enum.
pub fn get_enum_values(constants: &Vec<String>) -> (r: Vec<String>)
    ensures
        views(r@) == enum_lines(views(constants@)),
{
    let n = constants.len();
    let mut out: Vec<String> = Vec::new();
    let mut i: usize = 0;
    while i < n
        invariant
            n == constants@.len(),
            i <= n,
            views(out@) =~= Seq::new(i as nat, |j: int| enum_line(constants@[j]@, j == n - 1)),
        decreases n - i,
    {
        let c = constants[i].as_str();
        let mut line = String::from_str("  ");
        line.append(c);
        line.append(" = \"");
        line.append(c);
        if i + 1 == n {
            line.append("\"");
        } else {
            line.append("\",");
        }
        proof {
            reveal_strlit("\"");
            reveal_strlit("\",");
            reveal_strlit(",");
        }
        assert(line@ =~= enum_line(constants@[i as int]@, i == n - 1));
        let ghost before = views(out@);
        let ghost lv = line@;
        out.push(line);
        assert(views(out@) =~= before.push(lv));
        i += 1;
    }
    assert(enum_lines(views(constants@)) =~= Seq::new(n as nat, |j: int| enum_line(constants@[j]@, j == n - 1)));
    out
}

/// The body lines of a record: documentation and field of each property.
pub fn get_properties(props: &Vec<PropertyDescriptor>) -> (r: Result<Vec<String>, SchemaError>)
    ensures
        r is Ok <==> properties_resolve(props@),
        r is Ok ==> views(r->Ok_0@) == property_lines(props@),
{
    let n = props.len();
    let mut out: Vec<String> = Vec::new();
    let mut i: usize = 0;
    while i < n
        invariant
            n == props@.len(),
            i <= n,
            forall|j: int| 0 <= j < i ==> (#[trigger] resolved_type(props@[j].type_desc)) is Some,
            views(out@) =~= Seq::new(
                2 * i as nat,
                |k: int|
                    if k % 2 == 0 {
                        property_doc_line(props@[k / 2])
                    } else {
                        property_field_line(props@[k / 2])
                    },
            ),
        decreases n - i,
    {
        let p = &props[i];
        let t = match resolve(&p.type_desc) {
            Ok(t) => t,
            Err(e) => {
                return Err(e);
            },
        };
        let doc = get_documentation(&p.description);
        let mut doc_line = String::from_str("  ");
        doc_line.append(doc.as_str());
        let mut field = String::from_str("  ");
        field.append(p.name.as_str());
        field.append("?: ");
        field.append(t.as_str());
        field.append(";");
        assert(doc_line@ =~= property_doc_line(props@[i as int]));
        assert(field@ =~= property_field_line(props@[i as int]));
        let ghost before = views(out@);
        let ghost dv = doc_line@;
        let ghost fv = field@;
        out.push(doc_line);
        out.push(field);
        assert(views(out@) =~= before.push(dv).push(fv));
        assert(views(out@) =~= Seq::new(
            2 * (i + 1) as nat,
            |k: int|
                if k % 2 == 0 {
                    property_doc_line(props@[k / 2])
                } else {
                    property_field_line(props@[k / 2])
                },
        ));
        i += 1;
    }
    Ok(out)
}

/// The simple names of the parents.
pub fn get_parent_names(names: &Vec<String>) -> (r: Vec<String>)
    ensures
        views(r@) == parent_names(views(names@)),
{
    let n = names.len();
    let mut out: Vec<String> = Vec::new();
    let mut i: usize = 0;
    while i < n
        invariant
            n == names@.len(),
            i <= n,
            views(out@) =~= Seq::new(i as nat, |j: int| simple_name(names@[j]@)),
        decreases n - i,
    {
        let s = clean_name(get_simple_name(&names[i]));
        let ghost before = views(out@);
        let ghost sv = s@;
        out.push(s);
        assert(views(out@) =~= before.push(sv));
        i += 1;
    }
    assert(parent_names(views(names@)) =~= Seq::new(n as nat, |j: int| simple_name(names@[j]@)));
    out
}

/// The declaration that a document describes; `None` where a property's type
/// is malformed. An enum takes its body from `constants`, and has no parents
/// and no imports; a record takes its body from `properties`.
pub open spec fn declaration_of(doc: SchemaDocument) -> Option<DeclarationView> {
    let name = simple_name(doc.name@);
    let documentation = documentation(doc.description);
    if doc.is_enum {
        Some(
            DeclarationView {
                name,
                documentation,
                is_enum: true,
                parents: Seq::empty(),
                body_lines: enum_lines(views(doc.constants@)),
                imports: Seq::empty(),
            },
        )
    } else if properties_resolve(doc.properties@) {
        let parents = parent_names(views(doc.super_type_names@));
        let body_lines = property_lines(doc.properties@);
        Some(
            DeclarationView {
                name,
                documentation,
                is_enum: false,
                parents,
                body_lines,
                imports: imports_of(parents, body_lines),
            },
        )
    } else {
        None
    }
}

/// The declaration of a document.
pub fn build(doc: &SchemaDocument) -> (r: Result<ResolvedDeclaration, SchemaError>)
    ensures
        r is Ok <==> declaration_of(*doc) is Some,
        r is Ok ==> r->Ok_0@ == declaration_of(*doc)->Some_0,
{
    let name = get_bean_name(doc);
    let documentation = get_documentation(&doc.description);
    if doc.is_enum {
        let body_lines = get_enum_values(&doc.constants);
        let d = ResolvedDeclaration {
            name,
            documentation,
            is_enum: true,
            parents: Vec::new(),
            body_lines,
            imports: Vec::new(),
        };
        assert(d@.parents =~= Seq::<Seq<char>>::empty());
        assert(d@.imports =~= Seq::<Seq<char>>::empty());
        Ok(d)
    } else {
        let body_lines = match get_properties(&doc.properties) {
            Ok(lines) => lines,
            Err(e) => {
                return Err(e);
            },
        };
        let parents = get_parent_names(&doc.super_type_names);
        let imports = resolve_imports(&parents, &body_lines);
        Ok(ResolvedDeclaration { name, documentation, is_enum: false, parents, body_lines, imports })
    }
}

/// Names separated by `, `.
pub open spec fn join_names(names: Seq<Seq<char>>) -> Seq<char>
    decreases names.len(),
{
    if names.len() == 0 {
        Seq::empty()
    } else if names.len() == 1 {
        names[0]
    } else {
        join_names(names.drop_last()) + ", "@ + names.last()
    }
}

/// `export enum Name`, `export interface Name extends Base, Other` or
/// `export interface Name`, then a line with the opening brace.
pub open spec fn header(d: DeclarationView) -> Seq<char> {
    if d.is_enum {
        "export enum "@ + d.name + "\n{\n"@
    } else if d.parents.len() > 0 {
        "export interface "@ + d.name + " extends "@ + join_names(d.parents) + "\n{\n"@
    } else {
        "export interface "@ + d.name + "\n{\n"@
    }
}

/// Each line followed by a line break.
pub open spec fn body_text(lines: Seq<Seq<char>>) -> Seq<char>
    decreases lines.len(),
{
    if lines.len() == 0 {
        Seq::empty()
    } else {
        body_text(lines.drop_last()) + lines.last() + "\n"@
    }
}

/// The declaration: header, body lines, closing brace.
pub open spec fn declaration_text(d: DeclarationView) -> Seq<char> {
    header(d) + body_text(d.body_lines) + "}"@
}

/// The whole file: imports, documentation, declaration.
pub open spec fn file_text(d: DeclarationView) -> Seq<char> {
    import_block(d.imports) + d.documentation + "\n"@ + declaration_text(d)
}

/// The header line and opening brace of a declaration.
pub fn get_declaration_header(d: &ResolvedDeclaration) -> (r: String)
    ensures
        r@ == header(d@),
{
    if d.is_enum {
        let mut out = String::from_str("export enum ");
        out.append(d.name.as_str());
        out.append("\n{\n");
        return out;
    }
    let mut out = String::from_str("export interface ");
    out.append(d.name.as_str());
    let n = d.parents.len();
    if n > 0 {
        out.append(" extends ");
        let ghost start = out@;
        let mut i: usize = 0;
        while i < n
            invariant
                n == d.parents@.len(),
                i <= n,
                out@ == start + join_names(views(d.parents@).subrange(0, i as int)),
            decreases n - i,
        {
            let ghost pre = views(d.parents@).subrange(0, i + 1);
            assert(pre.drop_last() =~= views(d.parents@).subrange(0, i as int));
            if i > 0 {
                out.append(", ");
            }
            out.append(d.parents[i].as_str());
            assert(out@ =~= start + join_names(pre));
            i += 1;
        }
        assert(views(d.parents@).subrange(0, n as int) =~= views(d.parents@));
    }
    out.append("\n{\n");
    out
}

/// The text of a declaration, without its documentation.
pub fn declaration_text_of(d: &ResolvedDeclaration) -> (r: String)
    ensures
        r@ == declaration_text(d@),
{
    let mut out = get_declaration_header(d);
    let ghost start = out@;
    let n = d.body_lines.len();
    let mut i: usize = 0;
    while i < n
        invariant
            n == d.body_lines@.len(),
            i <= n,
            out@ == start + body_text(views(d.body_lines@).subrange(0, i as int)),
        decreases n - i,
    {
        let ghost pre = views(d.body_lines@).subrange(0, i + 1);
        assert(pre.drop_last() =~= views(d.body_lines@).subrange(0, i as int));
        out.append(d.body_lines[i].as_str());
        out.append("\n");
        assert(out@ =~= start + body_text(pre));
        i += 1;
    }
    assert(views(d.body_lines@).subrange(0, n as int) =~= views(d.body_lines@));
    out.append("}");
    out
}

/// The file that one bean document becomes, and its name.
pub fn convert(doc: &SchemaDocument) -> (r: Result<ConvertedBean, SchemaError>)
    ensures
        r is Ok <==> declaration_of(*doc) is Some,
        r is Ok ==> r->Ok_0.file_stem@ == kebab_of(declaration_of(*doc)->Some_0.name),
        r is Ok ==> r->Ok_0.text@ == file_text(declaration_of(*doc)->Some_0),
{
    let d = build(doc)?;
    let mut text = import_text(&d.imports);
    text.append(d.documentation.as_str());
    text.append("\n");
    let body = declaration_text_of(&d);
    text.append(body.as_str());
    let file_stem = to_kebab(d.name.as_str());
    Ok(ConvertedBean { file_stem, text })
}

} // verus!
