//! Assembly of one schema document from the fragments' spans.
use vstd::prelude::*;
use crate::fragment::{
    cubes_of, schema_name_of, shared_dims_of, span_view, virtual_cubes_of, Fragment,
    SCHEMA_TAG_CLOSE, SCHEMA_TAG_OPEN,
};
use crate::scan::chars_of;

verus! {

/// Why fragments could not be merged.
#[derive(Debug, Clone, Copy, PartialEq, Eq, Structural)]
pub enum SchemaError {
    /// Two fragments declare different schema names.
    ConflictingSchemaNames,
    /// No fragment declares a schema name.
    NoSchemaName,
}

/// Two of `names` are present and differ.
pub open spec fn names_conflict(names: Seq<Option<Seq<char>>>) -> bool {
    exists|i: int, j: int|
        0 <= i < names.len() && 0 <= j < names.len() && names[i] is Some && names[j] is Some
            && names[i] != names[j]
}

/// The first present name of `names`, if any.
pub open spec fn first_name(names: Seq<Option<Seq<char>>>) -> Option<Seq<char>>
    decreases names.len(),
{
    if names.len() == 0 {
        None
    } else {
        match first_name(names.drop_last()) {
            Some(n) => Some(n),
            None => names.last(),
        }
    }
}

/// The characters of a span, or none for an absent one.
pub open spec fn or_empty(span: Option<Seq<char>>) -> Seq<char> {
    match span {
        Some(s) => s,
        None => Seq::empty(),
    }
}

/// The present spans of `spans`, in order, with nothing between them.
pub open spec fn joined(spans: Seq<Option<Seq<char>>>) -> Seq<char>
    decreases spans.len(),
{
    if spans.len() == 0 {
        Seq::empty()
    } else {
        joined(spans.drop_last()) + or_empty(spans.last())
    }
}

/// The texts of the fragments.
pub open spec fn texts_of(fragments: Seq<String>) -> Seq<Seq<char>> {
    fragments.map_values(|f: String| f@)
}

/// The schema names of `texts`, one per text.
pub open spec fn names_of(texts: Seq<Seq<char>>) -> Seq<Option<Seq<char>>> {
    texts.map_values(|t: Seq<char>| schema_name_of(t))
}

/// The opening line of a schema named `name`.
pub open spec fn schema_header(name: Seq<char>) -> Seq<char> {
    SCHEMA_TAG_OPEN@ + name + "\">\n"@
}

/// The closing line of a schema.
pub open spec fn schema_footer() -> Seq<char> {
    "\n"@ + SCHEMA_TAG_CLOSE@
}

/// The document named `name` that holds the shared dimensions of all `texts`,
/// then their cubes, then their virtual cubes, each category in text order.
pub open spec fn assemble(name: Seq<char>, texts: Seq<Seq<char>>) -> Seq<char> {
    schema_header(name) + joined(texts.map_values(|t: Seq<char>| shared_dims_of(t))) + joined(
        texts.map_values(|t: Seq<char>| cubes_of(t)),
    ) + joined(texts.map_values(|t: Seq<char>| virtual_cubes_of(t))) + schema_footer()
}

/// The result of merging `texts`.
pub open spec fn merged(texts: Seq<Seq<char>>) -> Result<Seq<char>, SchemaError> {
    let names = names_of(texts);
    if names_conflict(names) {
        Err(SchemaError::ConflictingSchemaNames)
    } else {
        match first_name(names) {
            None => Err(SchemaError::NoSchemaName),
            Some(n) => Ok(assemble(n, texts)),
        }
    }
}

/// Merging one fragment that declares a name yields a schema of that name
/// holding the fragment's shared dimensions, cubes and virtual cubes, in that
/// order, each verbatim.
pub proof fn lemma_merge_single_fragment(t: Seq<char>, name: Seq<char>)
    requires
        schema_name_of(t) == Some(name),
    ensures
        merged(seq![t]) == Ok::<Seq<char>, SchemaError>(
            schema_header(name) + or_empty(shared_dims_of(t)) + or_empty(cubes_of(t)) + or_empty(
                virtual_cubes_of(t),
            ) + schema_footer(),
        ),
{
    let texts = seq![t];
    let names = names_of(texts);
    assert(names =~= seq![Some(name)]);
    assert(names.drop_last() =~= Seq::<Option<Seq<char>>>::empty());
    assert(first_name(names.drop_last()) is None);
    assert(!names_conflict(names));
    assert(first_name(names) == Some(name));
    lemma_joined_single(shared_dims_of(t));
    lemma_joined_single(cubes_of(t));
    lemma_joined_single(virtual_cubes_of(t));
    assert(texts.map_values(|u: Seq<char>| shared_dims_of(u)) =~= seq![shared_dims_of(t)]);
    assert(texts.map_values(|u: Seq<char>| cubes_of(u)) =~= seq![cubes_of(t)]);
    assert(texts.map_values(|u: Seq<char>| virtual_cubes_of(u)) =~= seq![virtual_cubes_of(t)]);
}

/// Merging a fragment that declares a name with one that declares none uses
/// that name and places each category of the first fragment before the same
/// category of the second: shared dimensions, then cubes, then virtual cubes.
pub proof fn lemma_merge_two_fragments(t1: Seq<char>, t2: Seq<char>, name: Seq<char>)
    requires
        schema_name_of(t1) == Some(name),
        schema_name_of(t2) is None,
    ensures
        merged(seq![t1, t2]) == Ok::<Seq<char>, SchemaError>(
            schema_header(name) + (or_empty(shared_dims_of(t1)) + or_empty(shared_dims_of(t2))) + (
            or_empty(cubes_of(t1)) + or_empty(cubes_of(t2))) + (or_empty(virtual_cubes_of(t1))
                + or_empty(virtual_cubes_of(t2))) + schema_footer(),
        ),
{
    let texts = seq![t1, t2];
    let names = names_of(texts);
    assert(names =~= seq![Some(name), None]);
    assert(names.drop_last() =~= seq![Some(name)]);
    assert(names.drop_last().drop_last() =~= Seq::<Option<Seq<char>>>::empty());
    assert(first_name(names.drop_last().drop_last()) is None);
    assert(first_name(names.drop_last()) == Some(name));
    assert(!names_conflict(names)) by {
        assert forall|i: int, j: int|
            0 <= i < names.len() && 0 <= j < names.len() && #[trigger] names[i] is Some
                && #[trigger] names[j] is Some implies names[i] == names[j] by {
            assert(i == 0 && j == 0);
        }
    }
    assert(first_name(names) == Some(name));
    lemma_joined_pair(shared_dims_of(t1), shared_dims_of(t2));
    lemma_joined_pair(cubes_of(t1), cubes_of(t2));
    lemma_joined_pair(virtual_cubes_of(t1), virtual_cubes_of(t2));
    assert(texts.map_values(|u: Seq<char>| shared_dims_of(u)) =~= seq![
        shared_dims_of(t1),
        shared_dims_of(t2),
    ]);
    assert(texts.map_values(|u: Seq<char>| cubes_of(u)) =~= seq![cubes_of(t1), cubes_of(t2)]);
    assert(texts.map_values(|u: Seq<char>| virtual_cubes_of(u)) =~= seq![
        virtual_cubes_of(t1),
        virtual_cubes_of(t2),
    ]);
}

proof fn lemma_joined_single(a: Option<Seq<char>>)
    ensures
        joined(seq![a]) == or_empty(a),
{
    assert(seq![a].drop_last() =~= Seq::<Option<Seq<char>>>::empty());
    assert(joined(Seq::<Option<Seq<char>>>::empty()) + or_empty(a) =~= or_empty(a));
}

proof fn lemma_joined_pair(a: Option<Seq<char>>, b: Option<Seq<char>>)
    ensures
        joined(seq![a, b]) == or_empty(a) + or_empty(b),
{
    assert(seq![a, b].drop_last() =~= seq![a]);
    lemma_joined_single(a);
}

/// Whether `a` and `b` hold the same characters.
fn same_text(a: &str, b: &str) -> (r: bool)
    ensures
        r == (a@ == b@),
{
    let x = chars_of(a);
    let y = chars_of(b);
    if x.len() != y.len() {
        return false;
    }
    let mut k: usize = 0;
    while k < x.len()
        invariant
            x@ == a@,
            y@ == b@,
            x.len() == y.len(),
            k <= x.len(),
            forall|t: int| 0 <= t < k ==> x@[t] == y@[t],
        decreases x.len() - k,
    {
        if x[k] != y[k] {
            assert(a@[k as int] != b@[k as int]);
            return false;
        }
        k = k + 1;
    }
    assert(x@ =~= y@);
    true
}

/// Appends the present spans of `spans` to `out`, in order.
fn append_spans(out: &mut String, spans: &Vec<Option<&str>>)
    ensures
        final(out)@ == old(out)@ + joined(spans@.map_values(|s: Option<&str>| span_view(s))),
{
    let ghost start = out@;
    let ghost views = spans@.map_values(|s: Option<&str>| span_view(s));
    let mut k: usize = 0;
    while k < spans.len()
        invariant
            k <= spans.len(),
            views == spans@.map_values(|s: Option<&str>| span_view(s)),
            out@ == start + joined(views.take(k as int)),
        decreases spans.len() - k,
    {
        assert(views.take(k + 1).drop_last() =~= views.take(k as int));
        if let Some(s) = spans[k] {
            out.append(s);
        }
        k = k + 1;
    }
    assert(views.take(k as int) =~= views);
}

/// Merges schema fragments into one schema document: the name that the
/// fragments declare, then the shared dimensions of all fragments, then their
/// cubes, then their virtual cubes, each category in fragment order.
pub fn fragments_to_schema(fragments: &[String]) -> (r: Result<String, SchemaError>)
    ensures
        match r {
            Ok(doc) => merged(texts_of(fragments@)) == Ok::<Seq<char>, SchemaError>(doc@),
            Err(e) => merged(texts_of(fragments@)) == Err::<Seq<char>, SchemaError>(e),
        },
{
    let ghost texts = texts_of(fragments@);
    let ghost names = names_of(texts);
    let mut names_seen: Vec<Option<&str>> = Vec::new();
    let mut dims: Vec<Option<&str>> = Vec::new();
    let mut cubes: Vec<Option<&str>> = Vec::new();
    let mut virtual_cubes: Vec<Option<&str>> = Vec::new();
    let mut k: usize = 0;
    while k < fragments.len()
        invariant
            k <= fragments.len(),
            texts == texts_of(fragments@),
            names == names_of(texts),
            names_seen.len() == k,
            dims.len() == k,
            cubes.len() == k,
            virtual_cubes.len() == k,
            forall|i: int| #![trigger texts[i]] 0 <= i < k ==> {
                &&& span_view(names_seen@[i]) == schema_name_of(texts[i])
                &&& span_view(dims@[i]) == shared_dims_of(texts[i])
                &&& span_view(cubes@[i]) == cubes_of(texts[i])
                &&& span_view(virtual_cubes@[i]) == virtual_cubes_of(texts[i])
            },
        decreases fragments.len() - k,
    {
        let f = Fragment::process_fragment(fragments[k].as_str());
        names_seen.push(f.schema_name);
        dims.push(f.shared_dims);
        cubes.push(f.cubes);
        virtual_cubes.push(f.virtual_cubes);
        k = k + 1;
    }
    let mut name: Option<&str> = None;
    let ghost mut named_at: int = 0;
    let mut k: usize = 0;
    while k < names_seen.len()
        invariant
            k <= names_seen.len(),
            texts == texts_of(fragments@),
            names == names_of(texts),
            names_seen.len() == texts.len(),
            dims.len() == texts.len(),
            cubes.len() == texts.len(),
            virtual_cubes.len() == texts.len(),
            forall|i: int| #![trigger texts[i]] 0 <= i < texts.len() ==> {
                &&& span_view(names_seen@[i]) == schema_name_of(texts[i])
                &&& span_view(dims@[i]) == shared_dims_of(texts[i])
                &&& span_view(cubes@[i]) == cubes_of(texts[i])
                &&& span_view(virtual_cubes@[i]) == virtual_cubes_of(texts[i])
            },
            span_view(name) == first_name(names.take(k as int)),
            forall|i: int| 0 <= i < k && #[trigger] names[i] is Some ==> names[i] == span_view(name),
            name is Some ==> 0 <= named_at < k && names[named_at] == span_view(name),
        decreases names_seen.len() - k,
    {
        assert(names.take(k + 1).drop_last() =~= names.take(k as int));
        if let Some(current) = names_seen[k] {
            match name {
                Some(stored) => {
                    if !same_text(stored, current) {
                        proof {
                            assert(names[k as int] is Some && names[named_at] is Some);
                            assert(names[k as int] != names[named_at]);
                        }
                        return Err(SchemaError::ConflictingSchemaNames);
                    }
                },
                None => {
                    name = Some(current);
                    proof {
                        named_at = k as int;
                    }
                },
            }
        }
        k = k + 1;
    }
    assert(names.take(k as int) =~= names);
    let name = match name {
        Some(n) => n,
        None => {
            return Err(SchemaError::NoSchemaName);
        },
    };
    let mut out = String::new();
    out.append(SCHEMA_TAG_OPEN);
    out.append(name);
    out.append("\">\n");
    append_spans(&mut out, &dims);
    append_spans(&mut out, &cubes);
    append_spans(&mut out, &virtual_cubes);
    out.append("\n");
    out.append(SCHEMA_TAG_CLOSE);
    proof {
        assert(!names_conflict(names)) by {
            assert forall|i: int, j: int|
                0 <= i < names.len() && 0 <= j < names.len() && #[trigger] names[i] is Some
                    && #[trigger] names[j] is Some implies names[i] == names[j] by {}
        }
        assert(dims@.map_values(|s: Option<&str>| span_view(s)) =~= texts.map_values(
            |t: Seq<char>| shared_dims_of(t),
        ));
        assert(cubes@.map_values(|s: Option<&str>| span_view(s)) =~= texts.map_values(
            |t: Seq<char>| cubes_of(t),
        ));
        assert(virtual_cubes@.map_values(|s: Option<&str>| span_view(s)) =~= texts.map_values(
            |t: Seq<char>| virtual_cubes_of(t),
        ));
        assert(out@ =~= assemble(name@, texts));
    }
    Ok(out)
}

} // verus!
