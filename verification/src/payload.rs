//! Recursive rewriting of path-shaped strings inside tree-structured
//! payloads.
//!
//! Capability calls and notifications carry opaque JSON-like values; only
//! string leaves that look like paths in the relevant namespace are
//! rewritten, every other leaf and all container structure is untouched.

use vstd::prelude::*;

use crate::path::{spec_translate_string, translate_string, Direction};

verus! {

/// serde_json's JSON value.  The translation carries non-string scalars
/// through opaquely and never reads them.
#[verifier::external_type_specification]
#[verifier::external_body]
pub struct ExJsonValue(serde_json::Value);

/// A tree-structured payload value: string leaves (the only thing
/// translation may rewrite), opaque scalar leaves (numbers, booleans,
/// nulls), and the two containers.
pub enum TreeValue {
    Text(String),
    Scalar(serde_json::Value),
    List(Vec<TreeValue>),
    Object(Vec<(String, TreeValue)>),
}

/// `r` is `v` with exactly the detector-matching string leaves rewritten for
/// `d`: scalar leaves are identical, containers keep their length, order and
/// keys, and each child is related in turn.
pub open spec fn translated_value(v: TreeValue, r: TreeValue, d: Direction) -> bool
    decreases v,
{
    match (v, r) {
        (TreeValue::Text(s), TreeValue::Text(t)) => t@ == spec_translate_string(s@, d),
        (TreeValue::Scalar(a), TreeValue::Scalar(b)) => b == a,
        (TreeValue::List(xs), TreeValue::List(ys)) => ys@.len() == xs@.len() && (forall|i: int|
            0 <= i < xs@.len() ==> translated_value(xs@[i], #[trigger] ys@[i], d)),
        (TreeValue::Object(xs), TreeValue::Object(ys)) => ys@.len() == xs@.len() && (forall|
            i: int,
        |
            0 <= i < xs@.len() ==> (#[trigger] ys@[i]).0@ == xs@[i].0@ && translated_value(
                xs@[i].1,
                ys@[i].1,
                d,
            )),
        _ => false,
    }
}

/// Translation touches only string leaves: a scalar leaf comes back
/// identical, and a text leaf whose detector does not fire comes back with
/// its text unchanged.
pub proof fn lemma_untouched_leaves(v: TreeValue, r: TreeValue, d: Direction)
    requires
        translated_value(v, r, d),
    ensures
        (match v {
            TreeValue::Scalar(a) => r == TreeValue::Scalar(a),
            _ => true,
        }),
        (match (v, r) {
            (TreeValue::Text(s), TreeValue::Text(t)) => spec_translate_string(s@, d) == s@ ==> t@
                == s@,
            (TreeValue::Text(s), _) => false,
            _ => true,
        }),
{
}

/// Walk a tree-structured payload and rewrite the string leaves that look
/// like paths in the source namespace of `direction`; everything else is
/// returned as it came.
#[verifier::loop_isolation(false)]
pub fn translate_paths_in_json(value: TreeValue, direction: Direction) -> (r: TreeValue)
    ensures
        translated_value(value, r, direction),
    decreases value,
{
    let ghost v0 = value;
    match value {
        TreeValue::Text(s) => {
            let t = translate_string(s.as_str(), direction);
            TreeValue::Text(t)
        },
        TreeValue::Scalar(x) => TreeValue::Scalar(x),
        TreeValue::List(items) => {
            let ghost items0 = items@;
            let mut rest = items;
            let mut out: Vec<TreeValue> = Vec::new();
            while rest.len() > 0
                invariant
                    out@.len() + rest@.len() == items0.len(),
                    rest@ =~= items0.skip(out@.len() as int),
                    v0 == TreeValue::List(items),
                    items@ == items0,
                    forall|i: int|
                        0 <= i < out@.len() ==> translated_value(
                            items0[i],
                            #[trigger] out@[i],
                            direction,
                        ),
                decreases rest@.len(),
            {
                let ghost k = out@.len() as int;
                let x = rest.remove(0);
                proof {
                    assert(x == items0[k]);
                    assert(items == v0->List_0);
                    assert(decreases_to!(v0 => v0->List_0));
                    assert(decreases_to!(items => items@));
                    assert(decreases_to!(items@ => items@[k]));
                    assert(rest@ =~= items0.skip(k + 1));
                }
                let y = translate_paths_in_json(x, direction);
                out.push(y);
            }
            proof {
                assert(out@.len() == items0.len());
            }
            TreeValue::List(out)
        },
        TreeValue::Object(fields) => {
            let ghost fields0 = fields@;
            let mut rest = fields;
            let mut out: Vec<(String, TreeValue)> = Vec::new();
            while rest.len() > 0
                invariant
                    out@.len() + rest@.len() == fields0.len(),
                    rest@ =~= fields0.skip(out@.len() as int),
                    v0 == TreeValue::Object(fields),
                    fields@ == fields0,
                    forall|i: int|
                        0 <= i < out@.len() ==> (#[trigger] out@[i]).0@ == fields0[i].0@
                            && translated_value(fields0[i].1, out@[i].1, direction),
                decreases rest@.len(),
            {
                let ghost k = out@.len() as int;
                let kv = rest.remove(0);
                proof {
                    assert(kv == fields0[k]);
                    assert(fields == v0->Object_0);
                    assert(decreases_to!(v0 => v0->Object_0));
                    assert(decreases_to!(fields => fields@));
                    assert(decreases_to!(fields@ => fields@[k]));
                    assert(decreases_to!(fields@[k] => fields@[k].1));
                    assert(rest@ =~= fields0.skip(k + 1));
                }
                let (key, x) = kv;
                let y = translate_paths_in_json(x, direction);
                out.push((key, y));
            }
            proof {
                assert(out@.len() == fields0.len());
            }
            TreeValue::Object(out)
        },
    }
}

} // verus!
