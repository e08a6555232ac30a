//! The names a declaration imports, and the import statements for them.
use vstd::prelude::*;
use convert_case::{Case, Casing};
use crate::order::{lemma_sorted_set, lemma_sorted_set_strict, sorted_set, sorted_unique, views};
use crate::text::{remove_all, remove_all_exec, remove_array, remove_map, split_last, split_last_exec, strip_array, strip_map};

verus! {

/// The bare type name in a rendered field line `name?: Type;`: the text after
/// the last `: `, with `Array<...>` and then `Map<K, ...>` wrapping and the
/// `;` taken off.
pub open spec fn line_reference(line: Seq<char>) -> Seq<char> {
    remove_all(strip_map(strip_array(split_last(line, ": "@))), ";"@)
}

/// Whether a character is an upper-case letter, in Unicode's sense.
pub uninterp spec fn upper_of(c: char) -> bool;

/// Relies on `char::is_uppercase` of std: whether `c` has Unicode's
/// `Uppercase` property, which depends on the character alone.
#[verifier::external_body]
fn is_upper(c: char) -> (r: bool)
    ensures
        r == upper_of(c),
{
    c.is_uppercase()
}

/// A name that refers to another declaration starts with an upper-case letter.
pub open spec fn is_type_name(t: Seq<char>) -> bool {
    t.len() > 0 && upper_of(t[0])
}

/// The parents that are not empty, in order.
pub open spec fn parent_candidates(ps: Seq<Seq<char>>) -> Seq<Seq<char>>
    decreases ps.len(),
{
    if ps.len() == 0 {
        ps
    } else if ps.last().len() > 0 {
        parent_candidates(ps.drop_last()).push(ps.last())
    } else {
        parent_candidates(ps.drop_last())
    }
}

/// The type names referred to by the field lines (odd positions) of a body.
pub open spec fn line_candidates(lines: Seq<Seq<char>>) -> Seq<Seq<char>>
    decreases lines.len(),
{
    if lines.len() == 0 {
        lines
    } else {
        let r = line_candidates(lines.drop_last());
        let t = line_reference(lines.last());
        if (lines.len() - 1) % 2 == 1 && is_type_name(t) {
            r.push(t)
        } else {
            r
        }
    }
}

/// What a declaration with these parents and body lines imports: the
/// non-empty parents and the referenced type names, sorted, each once.
pub open spec fn imports_of(ps: Seq<Seq<char>>, lines: Seq<Seq<char>>) -> Seq<Seq<char>> {
    sorted_set(parent_candidates(ps) + line_candidates(lines))
}

proof fn lemma_parent_candidates_contains(ps: Seq<Seq<char>>, x: Seq<char>)
    ensures
        parent_candidates(ps).contains(x) <==> (x.len() > 0 && ps.contains(x)),
    decreases ps.len(),
{
    if ps.len() > 0 {
        let p = ps.drop_last();
        lemma_parent_candidates_contains(p, x);
        if ps.contains(x) && x != ps.last() {
            let i = choose|i: int| 0 <= i < ps.len() && ps[i] == x;
            assert(p[i] == x);
        }
        if p.contains(x) {
            let i = choose|i: int| 0 <= i < p.len() && p[i] == x;
            assert(ps[i] == x);
        }
        assert(ps[ps.len() - 1] == ps.last());
        if ps.last().len() > 0 {
            let r = parent_candidates(p).push(ps.last());
            assert(r[r.len() - 1] == ps.last());
            if parent_candidates(p).contains(x) {
                let i = choose|i: int| 0 <= i < parent_candidates(p).len() && parent_candidates(p)[i] == x;
                assert(r[i] == x);
            }
            if r.contains(x) && x != ps.last() {
                let i = choose|i: int| 0 <= i < r.len() && r[i] == x;
                assert(parent_candidates(p)[i] == x);
            }
        }
    }
}

/// Import resolution depends on the parents only through the items they
/// hold: reordering the parents leaves the imports unchanged.
pub proof fn lemma_imports_order_independent(
    p1: Seq<Seq<char>>,
    p2: Seq<Seq<char>>,
    lines: Seq<Seq<char>>,
)
    requires
        p1.to_multiset() == p2.to_multiset(),
    ensures
        imports_of(p1, lines) == imports_of(p2, lines),
{
    let c1 = parent_candidates(p1) + line_candidates(lines);
    let c2 = parent_candidates(p2) + line_candidates(lines);
    p1.to_multiset_ensures();
    p2.to_multiset_ensures();
    assert forall|x: Seq<char>| c1.to_set().contains(x) <==> c2.to_set().contains(x) by {
        lemma_parent_candidates_contains(p1, x);
        lemma_parent_candidates_contains(p2, x);
        assert(p1.contains(x) <==> p1.to_multiset().count(x) > 0);
        assert(p2.contains(x) <==> p2.to_multiset().count(x) > 0);
        lemma_concat_contains(parent_candidates(p1), line_candidates(lines), x);
        lemma_concat_contains(parent_candidates(p2), line_candidates(lines), x);
    }
    assert(c1.to_set() =~= c2.to_set());
    lemma_sorted_set_strict(c1);
    lemma_sorted_set(c2, sorted_set(c1));
}

/// Import resolution is idempotent: resolving the imports of a declaration
/// once more, as the parents of a declaration without body, gives them back.
pub proof fn lemma_imports_idempotent(ps: Seq<Seq<char>>, lines: Seq<Seq<char>>)
    ensures
        imports_of(imports_of(ps, lines), Seq::empty()) == imports_of(ps, lines),
{
    let c = parent_candidates(ps) + line_candidates(lines);
    let r = imports_of(ps, lines);
    lemma_sorted_set_strict(c);
    assert forall|x: Seq<char>| c.to_set().contains(x) implies x.len() > 0 by {
        lemma_concat_contains(parent_candidates(ps), line_candidates(lines), x);
        lemma_parent_candidates_contains(ps, x);
        lemma_line_candidates_named(lines, x);
    }
    let c2 = parent_candidates(r) + line_candidates(Seq::<Seq<char>>::empty());
    assert(c2 =~= parent_candidates(r));
    assert forall|x: Seq<char>| c2.to_set().contains(x) <==> r.to_set().contains(x) by {
        lemma_parent_candidates_contains(r, x);
    }
    assert(c2.to_set() =~= r.to_set());
    lemma_sorted_set(c2, r);
}

proof fn lemma_concat_contains(a: Seq<Seq<char>>, b: Seq<Seq<char>>, x: Seq<char>)
    ensures
        (a + b).contains(x) <==> a.contains(x) || b.contains(x),
{
    if a.contains(x) {
        let i = choose|i: int| 0 <= i < a.len() && a[i] == x;
        assert((a + b)[i] == x);
    }
    if b.contains(x) {
        let i = choose|i: int| 0 <= i < b.len() && b[i] == x;
        assert((a + b)[a.len() + i] == x);
    }
    if (a + b).contains(x) {
        let i = choose|i: int| 0 <= i < (a + b).len() && (a + b)[i] == x;
        if i < a.len() {
            assert(a[i] == x);
        } else {
            assert(b[i - a.len()] == x);
        }
    }
}

proof fn lemma_line_candidates_named(lines: Seq<Seq<char>>, x: Seq<char>)
    ensures
        line_candidates(lines).contains(x) ==> is_type_name(x),
    decreases lines.len(),
{
    if lines.len() > 0 {
        let p = lines.drop_last();
        lemma_line_candidates_named(p, x);
        let r = line_candidates(lines);
        if r.contains(x) && r != line_candidates(p) {
            let i = choose|i: int| 0 <= i < r.len() && r[i] == x;
            if i < line_candidates(p).len() {
                assert(line_candidates(p)[i] == x);
            }
        }
    }
}

/// The bare type name in a rendered field line.
fn line_reference_exec(line: &str) -> (r: String)
    ensures
        r@ == line_reference(line@),
{
    proof {
        reveal_strlit(": ");
        reveal_strlit(";");
    }
    let t = split_last_exec(line, ": ");
    let a = remove_array(String::from_str(t));
    let m = remove_map(a);
    remove_all_exec(m.as_str(), ";")
}

/// The names to import for a declaration with these parents and body lines.
pub fn resolve_imports(parents: &Vec<String>, body_lines: &Vec<String>) -> (r: Vec<String>)
    ensures
        views(r@) == imports_of(views(parents@), views(body_lines@)),
{
    let mut cands: Vec<String> = Vec::new();
    let mut i: usize = 0;
    while i < parents.len()
        invariant
            i <= parents@.len(),
            views(cands@) == parent_candidates(views(parents@).subrange(0, i as int)),
        decreases parents@.len() - i,
    {
        let ghost pre = views(parents@).subrange(0, i + 1);
        assert(pre.drop_last() =~= views(parents@).subrange(0, i as int));
        if parents[i].unicode_len() > 0 {
            cands.push(parents[i].clone());
            assert(views(cands@) =~= parent_candidates(pre));
        }
        i += 1;
    }
    assert(views(parents@).subrange(0, i as int) =~= views(parents@));
    let ghost base = views(cands@);
    let mut k: usize = 0;
    while k < body_lines.len()
        invariant
            k <= body_lines@.len(),
            base == parent_candidates(views(parents@)),
            views(cands@) == base + line_candidates(views(body_lines@).subrange(0, k as int)),
        decreases body_lines@.len() - k,
    {
        let ghost pre = views(body_lines@).subrange(0, k + 1);
        assert(pre.drop_last() =~= views(body_lines@).subrange(0, k as int));
        if k % 2 == 1 {
            let t = line_reference_exec(body_lines[k].as_str());
            if t.unicode_len() > 0 {
                let c = t.as_str().get_char(0);
                if is_upper(c) {
                    assert(pre.last() == body_lines@[k as int]@);
                    assert(is_type_name(t@));
                    assert(line_candidates(pre) == line_candidates(pre.drop_last()).push(t@));
                    let ghost before = views(cands@);
                    let ghost tv = t@;
                    cands.push(t);
                    assert(views(cands@) =~= before.push(tv));
                    assert(views(cands@) =~= base + line_candidates(pre));
                }
            }
        }
        k += 1;
    }
    assert(views(body_lines@).subrange(0, k as int) =~= views(body_lines@));
    sorted_unique(cands)
}

/// The module path that an imported name lives in: `kebab_of(name)` is the
/// name in kebab case.
pub uninterp spec fn kebab_of(name: Seq<char>) -> Seq<char>;

/// Relies on convert_case's `Casing::to_case` with `Case::Kebab`, whose result
/// depends on the text alone.
#[verifier::external_body]
pub(crate) fn to_kebab(name: &str) -> (r: String)
    ensures
        r@ == kebab_of(name@),
{
    name.to_case(Case::Kebab)
}

/// `import { Name } from './slug';` and a line break.
pub open spec fn import_line(name: Seq<char>, slug: Seq<char>) -> Seq<char> {
    "import { "@ + name + " } from './"@ + slug + "';\n"@
}

/// The import statement of `name` from the module `slug`.
pub fn import_line_with_slug(name: &str, slug: &str) -> (r: String)
    ensures
        r@ == import_line(name@, slug@),
{
    let mut out = String::from_str("import { ");
    out.append(name);
    out.append(" } from './");
    out.append(slug);
    out.append("';\n");
    out
}

/// The import statement of `name`, from the module named after it in kebab case.
pub fn generate_import_line(name: &String) -> (r: String)
    ensures
        r@ == import_line(name@, kebab_of(name@)),
{
    let slug = to_kebab(name.as_str());
    import_line_with_slug(name.as_str(), slug.as_str())
}

/// The import statements of `names`, in order, followed by an empty line when
/// there is at least one.
pub open spec fn import_block(names: Seq<Seq<char>>) -> Seq<char> {
    if names.len() == 0 {
        Seq::empty()
    } else {
        import_lines(names) + "\n"@
    }
}

pub open spec fn import_lines(names: Seq<Seq<char>>) -> Seq<char>
    decreases names.len(),
{
    if names.len() == 0 {
        Seq::empty()
    } else {
        import_lines(names.drop_last()) + import_line(names.last(), kebab_of(names.last()))
    }
}

/// The import statements of `names`.
pub fn import_text(names: &Vec<String>) -> (r: String)
    ensures
        r@ == import_block(views(names@)),
{
    let mut out = String::new();
    let mut i: usize = 0;
    while i < names.len()
        invariant
            i <= names@.len(),
            out@ == import_lines(views(names@).subrange(0, i as int)),
        decreases names@.len() - i,
    {
        let line = generate_import_line(&names[i]);
        out.append(line.as_str());
        let ghost pre = views(names@).subrange(0, i + 1);
        assert(pre.drop_last() =~= views(names@).subrange(0, i as int));
        i += 1;
    }
    assert(views(names@).subrange(0, i as int) =~= views(names@));
    if names.len() > 0 {
        out.append("\n");
    }
    out
}

/// The import statements of a declaration with these parents and body lines.
pub fn get_imports(parents: &Vec<String>, body_lines: &Vec<String>) -> (r: String)
    ensures
        r@ == import_block(imports_of(views(parents@), views(body_lines@))),
{
    let names = resolve_imports(parents, body_lines);
    import_text(&names)
}

} // verus!
