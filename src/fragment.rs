//! Extraction of the schema name and of the category spans from one fragment.
use vstd::prelude::*;
use crate::scan::{chars_of, find, find_from, lemma_find_from, lemma_find_from_first, occurs_at};

verus! {

/// Opening marker of a schema, up to the quote that starts its name.
pub const SCHEMA_TAG_OPEN: &'static str = "<Schema name=\"";

/// Closing marker of a schema.
pub const SCHEMA_TAG_CLOSE: &'static str = "</Schema>";

/// Opening marker of a cube.
pub const CUBE_TAG_OPEN: &'static str = "<Cube";

/// Opening marker of a dimension.
pub const DIM_TAG_OPEN: &'static str = "<Dimension";

/// Opening marker of a virtual cube.
pub const VIRTUALCUBE_TAG_OPEN: &'static str = "<VirtualCube";

/// The characters of an optional span.
pub open spec fn span_view(o: Option<&str>) -> Option<Seq<char>> {
    match o {
        Some(s) => Some(s@),
        None => None,
    }
}

/// The schema name of `t`: the text between the first schema-open marker and
/// the next quote after it.
pub open spec fn schema_name_of(t: Seq<char>) -> Option<Seq<char>> {
    match find_from(t, SCHEMA_TAG_OPEN@, 0) {
        None => None,
        Some(i) => {
            let start = i + SCHEMA_TAG_OPEN@.len();
            match find_from(t, seq!['"'], start) {
                None => None,
                Some(j) => Some(t.subrange(start, j)),
            }
        },
    }
}

/// The span of `t` from `start` to the first schema-close marker at or after
/// it, or to the end of `t` if there is none.
pub open spec fn span_to_close(t: Seq<char>, start: int) -> Seq<char> {
    match find_from(t, SCHEMA_TAG_CLOSE@, start) {
        Some(e) => t.subrange(start, e),
        None => t.subrange(start, t.len() as int),
    }
}

/// The span of `t` from the first occurrence of `marker` to the schema-close
/// marker (or the end), if `marker` occurs.
pub open spec fn block_of(t: Seq<char>, marker: Seq<char>) -> Option<Seq<char>> {
    match find_from(t, marker, 0) {
        None => None,
        Some(i) => Some(span_to_close(t, i)),
    }
}

/// The shared dimensions of `t`. Where a cube occurs, the span runs from the
/// first dimension to the cube that follows it, and only if that cube is the
/// first one of `t`; a dimension after the first cube is nested in a cube.
/// Without cubes, the span runs from the first dimension to the schema-close
/// marker (or the end).
pub open spec fn shared_dims_of(t: Seq<char>) -> Option<Seq<char>> {
    match find_from(t, CUBE_TAG_OPEN@, 0) {
        Some(first_cube) => match find_from(t, DIM_TAG_OPEN@, 0) {
            None => None,
            Some(d) => match find_from(t, CUBE_TAG_OPEN@, d) {
                Some(c) => if c == first_cube {
                    Some(t.subrange(d, c))
                } else {
                    None
                },
                None => None,
            },
        },
        None => block_of(t, DIM_TAG_OPEN@),
    }
}

/// The cubes of `t`: from the first cube to the schema-close marker (or the end).
pub open spec fn cubes_of(t: Seq<char>) -> Option<Seq<char>> {
    block_of(t, CUBE_TAG_OPEN@)
}

/// The virtual cubes of `t`: from the first virtual cube to the schema-close
/// marker (or the end).
pub open spec fn virtual_cubes_of(t: Seq<char>) -> Option<Seq<char>> {
    block_of(t, VIRTUALCUBE_TAG_OPEN@)
}

/// A text in which the schema-open marker does not occur has no schema name.
pub proof fn lemma_no_schema_marker_no_name(t: Seq<char>)
    requires
        forall|i: int| !occurs_at(t, SCHEMA_TAG_OPEN@, i),
    ensures
        schema_name_of(t) is None,
{
    lemma_find_from(t, SCHEMA_TAG_OPEN@, 0);
}

/// A text that opens with the schema-open marker, a name without quotes and a
/// quote has exactly that name as its schema name, whatever follows.
pub proof fn lemma_schema_name_between_quotes(name: Seq<char>, rest: Seq<char>)
    requires
        forall|i: int| 0 <= i < name.len() ==> name[i] != '"',
    ensures
        schema_name_of(SCHEMA_TAG_OPEN@ + name + seq!['"'] + rest) == Some(name),
{
    let open = SCHEMA_TAG_OPEN@;
    let t = open + name + seq!['"'] + rest;
    let start = open.len() as int;
    let q = start + name.len();
    assert(t.subrange(0, start) =~= open);
    lemma_find_from_first(t, open, 0, 0);
    assert(t.subrange(q, q + 1) =~= seq!['"']);
    assert forall|j: int| start <= j < q implies !occurs_at(t, seq!['"'], j) by {
        assert(t.subrange(j, j + 1)[0] == name[j - start]);
    }
    lemma_find_from_first(t, seq!['"'], start, q);
    assert(t.subrange(start, q) =~= name);
}

/// A first dimension that comes before the first cube is shared: its span runs
/// up to that cube.
pub proof fn lemma_dimension_before_cubes_is_shared(t: Seq<char>, d: int, c: int)
    requires
        find_from(t, DIM_TAG_OPEN@, 0) == Some(d),
        find_from(t, CUBE_TAG_OPEN@, 0) == Some(c),
        d < c,
    ensures
        shared_dims_of(t) == Some(t.subrange(d, c)),
{
    lemma_find_from(t, DIM_TAG_OPEN@, 0);
    lemma_find_from(t, CUBE_TAG_OPEN@, 0);
    lemma_find_from_first(t, CUBE_TAG_OPEN@, d, c);
}

/// A first dimension that comes after the first cube is nested in a cube: the
/// text has no shared dimensions.
pub proof fn lemma_dimension_inside_cube_not_shared(t: Seq<char>, d: int, c: int)
    requires
        find_from(t, DIM_TAG_OPEN@, 0) == Some(d),
        find_from(t, CUBE_TAG_OPEN@, 0) == Some(c),
        c < d,
    ensures
        shared_dims_of(t) is None,
{
    lemma_find_from(t, DIM_TAG_OPEN@, 0);
    lemma_find_from(t, CUBE_TAG_OPEN@, d);
}

/// What one fragment of a schema holds, as spans of the fragment's text.
#[derive(Debug, PartialEq)]
pub struct Fragment<'a> {
    pub schema_name: Option<&'a str>,
    pub shared_dims: Option<&'a str>,
    pub cubes: Option<&'a str>,
    pub virtual_cubes: Option<&'a str>,
}

/// The span of `text` from `start` to the schema-close marker (or the end).
fn span_to_close_exec<'a>(text: &'a str, chars: &Vec<char>, start: usize) -> (r: &'a str)
    requires
        chars@ == text@,
        start <= chars.len(),
    ensures
        r@ == span_to_close(text@, start as int),
{
    let close = chars_of(SCHEMA_TAG_CLOSE);
    match find(chars, &close, start) {
        Some(e) => {
            proof {
                lemma_find_from(text@, SCHEMA_TAG_CLOSE@, start as int);
            }
            text.substring_char(start, e)
        },
        None => text.substring_char(start, chars.len()),
    }
}

/// The span of `text` from the first `marker` to the schema-close marker (or the end).
fn block_exec<'a>(text: &'a str, chars: &Vec<char>, marker: &str) -> (r: Option<&'a str>)
    requires
        chars@ == text@,
    ensures
        span_view(r) == block_of(text@, marker@),
{
    let m = chars_of(marker);
    match find(chars, &m, 0) {
        Some(i) => {
            proof {
                lemma_find_from(text@, marker@, 0);
            }
            Some(span_to_close_exec(text, chars, i))
        },
        None => None,
    }
}

fn schema_name_exec<'a>(text: &'a str, chars: &Vec<char>) -> (r: Option<&'a str>)
    requires
        chars@ == text@,
    ensures
        span_view(r) == schema_name_of(text@),
{
    let open = chars_of(SCHEMA_TAG_OPEN);
    match find(chars, &open, 0) {
        None => None,
        Some(i) => {
            proof {
                lemma_find_from(text@, SCHEMA_TAG_OPEN@, 0);
                assert(occurs_at(text@, open@, i as int));
                assert(i + open.len() <= chars.len());
            }
            let start = i + open.len();
            let quote: Vec<char> = vec!['"'];
            assert(quote@ == seq!['"']);
            match find(chars, &quote, start) {
                None => None,
                Some(j) => {
                    proof {
                        lemma_find_from(text@, seq!['"'], start as int);
                    }
                    Some(text.substring_char(start, j))
                },
            }
        },
    }
}

fn shared_dims_exec<'a>(text: &'a str, chars: &Vec<char>) -> (r: Option<&'a str>)
    requires
        chars@ == text@,
    ensures
        span_view(r) == shared_dims_of(text@),
{
    let cube = chars_of(CUBE_TAG_OPEN);
    match find(chars, &cube, 0) {
        Some(first_cube) => {
            let dim = chars_of(DIM_TAG_OPEN);
            match find(chars, &dim, 0) {
                None => None,
                Some(d) => {
                    proof {
                        lemma_find_from(text@, DIM_TAG_OPEN@, 0);
                    }
                    match find(chars, &cube, d) {
                        Some(c) => {
                            if c == first_cube {
                                proof {
                                    lemma_find_from(text@, CUBE_TAG_OPEN@, d as int);
                                }
                                Some(text.substring_char(d, c))
                            } else {
                                None
                            }
                        },
                        None => None,
                    }
                },
            }
        },
        None => block_exec(text, chars, DIM_TAG_OPEN),
    }
}

impl<'a> Fragment<'a> {
    /// The schema name of a fragment: the text between the first schema-open
    /// marker and the next quote; `None` without such a marker or quote.
    pub fn get_schema_name(fragment: &'a str) -> (r: Option<&'a str>)
        ensures
            span_view(r) == schema_name_of(fragment@),
    {
        let chars = chars_of(fragment);
        schema_name_exec(fragment, &chars)
    }

    /// The shared (top-level) dimensions of a fragment.
    pub fn get_shared_dims(fragment: &'a str) -> (r: Option<&'a str>)
        ensures
            span_view(r) == shared_dims_of(fragment@),
    {
        let chars = chars_of(fragment);
        shared_dims_exec(fragment, &chars)
    }

    /// The cubes of a fragment, from the first cube to the schema-close marker
    /// or the end.
    pub fn get_cubes(fragment: &'a str) -> (r: Option<&'a str>)
        ensures
            span_view(r) == cubes_of(fragment@),
    {
        let chars = chars_of(fragment);
        block_exec(fragment, &chars, CUBE_TAG_OPEN)
    }

    /// The virtual cubes of a fragment, from the first virtual cube to the
    /// schema-close marker or the end.
    pub fn get_virtual_cubes(fragment: &'a str) -> (r: Option<&'a str>)
        ensures
            span_view(r) == virtual_cubes_of(fragment@),
    {
        let chars = chars_of(fragment);
        block_exec(fragment, &chars, VIRTUALCUBE_TAG_OPEN)
    }

    /// Runs the four extractions on one fragment.
    pub fn process_fragment(fragment: &'a str) -> (r: Fragment<'a>)
        ensures
            span_view(r.schema_name) == schema_name_of(fragment@),
            span_view(r.shared_dims) == shared_dims_of(fragment@),
            span_view(r.cubes) == cubes_of(fragment@),
            span_view(r.virtual_cubes) == virtual_cubes_of(fragment@),
    {
        let chars = chars_of(fragment);
        Fragment {
            schema_name: schema_name_exec(fragment, &chars),
            shared_dims: shared_dims_exec(fragment, &chars),
            cubes: block_exec(fragment, &chars, CUBE_TAG_OPEN),
            virtual_cubes: block_exec(fragment, &chars, VIRTUALCUBE_TAG_OPEN),
        }
    }
}

} // verus!
