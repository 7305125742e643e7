//! **Where the seat was pointed**, remembered between runs.
//!
//! Per-seat UI state is the seat's own and lives under the state root,
//! never the data root (`crate::paths`). The place is a *projection* of the
//! window's model — the aim and the accordion are the model's own fields —
//! so there is nothing to keep in step and nothing that can disagree with
//! the glass.
//!
//! Reading may never become a way for the seat to fail to start: a file
//! that is absent, unreadable or written by another build reads as **no
//! place**. A key this build does not know is ignored and one it wants is
//! absence; within a name-keyed table, one unreadable row costs that row
//! alone. Reading and writing the file are the process edge's; parsing its
//! text and the rules for what a read keeps are here.

use vstd::prelude::*;
use crate::paths::{join, join_spec};
use crate::order::same_chars;
use crate::text::chars_of;
use crate::ui::{aim_view, aimed_view, copy_aim, copy_engines, engines_view, opened_view, opt_chars, Aim, Engines, Model};

verus! {

/// The file, under the state root. One name, so there is nothing to configure.
pub const FILE: &'static str = "place.json";

/// **Everything the seat remembers between runs.** One value, because it is
/// one file, read whole at boot and written whole once the event loop has
/// returned.
#[derive(Debug, Default, PartialEq, Eq)]
pub struct Place {
    /// The wall the window was aimed at, or nothing.
    pub aim: Option<Aim>,
    /// How the engines were arranged.
    pub engines: Engines,
    /// The width the accordion was dragged to, if it was.
    pub dragged: Option<u16>,
}

impl Place {
    /// **The place a model IS**, as a projection and never as a stored copy.
    pub fn of(model: &Model) -> (p: Place)
        ensures
            aim_view(p.aim) == aim_view(model.aim),
            engines_view(p.engines) == engines_view(model.engines),
            p.dragged == model.dragged,
    {
        Place {
            aim: copy_aim(&model.aim),
            engines: copy_engines(&model.engines),
            dragged: model.dragged,
        }
    }
}

/// Where the place is kept under `root`.
pub fn at(root: &str) -> (p: String)
    ensures
        p@ == join_spec(root@, FILE@),
{
    join(root, FILE)
}

/// The aim a file carries, where it carries a whole one: a half-written aim
/// is no aim, since an address with no channel names nothing the seat can
/// resolve.
pub fn aim_from(channel: Option<String>, address: Option<String>) -> (r: Option<Aim>)
    ensures
        match r {
            Some(a) => channel == Some(a.channel) && address == Some(a.address),
            None => channel is None || address is None,
        },
{
    match (channel, address) {
        (Some(channel), Some(address)) => Some(Aim { channel, address }),
        _ => None,
    }
}

/// The rows of a name-keyed table that this build could read, in order.
pub open spec fn readable_rows<T>(rows: Seq<(String, Option<T>)>) -> Seq<(String, T)>
    decreases rows.len(),
{
    if rows.len() == 0 {
        Seq::empty()
    } else {
        let before = readable_rows(rows.drop_last());
        match rows.last().1 {
            Some(v) => before.push((rows.last().0, v)),
            None => before,
        }
    }
}

/// **One unreadable entry costs one entry**: the readable rows of two runs
/// of rows are those of the first followed by those of the second, so an
/// unreadable row between them drops itself and nothing else, and a
/// readable row is kept where it stood.
pub proof fn law_one_unreadable_row_costs_one_row<T>(a: Seq<(String, Option<T>)>, b: Seq<(String, Option<T>)>, name: String, v: T)
    ensures
        readable_rows(a + b) == readable_rows(a) + readable_rows(b),
        readable_rows(a.push((name, None::<T>)) + b) == readable_rows(a) + readable_rows(b),
        readable_rows(a.push((name, Some(v))) + b) == readable_rows(a).push((name, v)) + readable_rows(b),
    decreases b.len(),
{
    assert(a.push((name, None::<T>)).drop_last() =~= a);
    assert(a.push((name, Some(v))).drop_last() =~= a);
    if b.len() == 0 {
        assert(a + b =~= a);
        assert(a.push((name, None::<T>)) + b =~= a.push((name, None::<T>)));
        assert(a.push((name, Some(v))) + b =~= a.push((name, Some(v))));
        assert(readable_rows(b) =~= Seq::<(String, T)>::empty());
        assert(readable_rows(a) + readable_rows(b) =~= readable_rows(a));
        assert(readable_rows(a).push((name, v)) + readable_rows(b) =~= readable_rows(a).push((name, v)));
    } else {
        let c = b.drop_last();
        law_one_unreadable_row_costs_one_row(a, c, name, v);
        assert((a + b).drop_last() =~= a + c);
        assert((a + b).last() == b.last());
        assert((a.push((name, None::<T>)) + b).drop_last() =~= a.push((name, None::<T>)) + c);
        assert((a.push((name, None::<T>)) + b).last() == b.last());
        assert((a.push((name, Some(v))) + b).drop_last() =~= a.push((name, Some(v))) + c);
        assert((a.push((name, Some(v))) + b).last() == b.last());
        match b.last().1 {
            Some(x) => {
                let e = (b.last().0, x);
                assert(readable_rows(a) + readable_rows(c).push(e) =~= (readable_rows(a) + readable_rows(c)).push(e));
                assert(readable_rows(a).push((name, v)) + readable_rows(c).push(e) =~= (readable_rows(a).push(
                    (name, v),
                ) + readable_rows(c)).push(e));
            },
            None => {},
        }
    }
}

/// One name-keyed table, dropping every row this build cannot read: one
/// unreadable entry costs one entry.
pub fn keep_readable<T>(rows: Vec<(String, Option<T>)>) -> (r: Vec<(String, T)>)
    ensures
        r@ == readable_rows(rows@),
{
    let ghost whole = rows@;
    let total: usize = rows.len();
    let mut rows = rows;
    let mut out: Vec<(String, T)> = Vec::new();
    let mut k: usize = 0;
    while rows.len() > 0
        invariant
            k + rows@.len() == whole.len(),
            whole.len() <= usize::MAX,
            rows@ == whole.skip(k as int),
            out@ == readable_rows(whole.take(k as int)),
        decreases rows.len(),
    {
        let (name, held) = rows.remove(0);
        proof {
            assert(whole[k as int] == (name, held));
            assert(whole.take(k + 1).drop_last() =~= whole.take(k as int));
            assert(rows@ =~= whole.skip(k + 1));
        }
        match held {
            Some(v) => out.push((name, v)),
            None => {},
        }
        k += 1;
    }
    proof {
        assert(whole.take(k as int) =~= whole);
    }
    out
}

/// A value of `place.json` below its top level, as far as a read looks at
/// one: a string, a number (its unsigned value where it has one), or
/// anything else.
#[derive(Debug)]
pub enum Scalar {
    Str(String),
    Num(Option<u64>),
    Other,
}

/// A top-level value of `place.json`: an object's entries, or a value.
#[derive(Debug)]
pub enum Field {
    Obj(Vec<(String, Scalar)>),
    Val(Scalar),
}

/// A [`Scalar`] as plain values.
pub enum ScalarView {
    Str(Seq<char>),
    Num(Option<u64>),
    Other,
}

/// A [`Field`] as plain values.
pub enum FieldView {
    Obj(Seq<(Seq<char>, ScalarView)>),
    Val(ScalarView),
}

/// The plain value of a scalar.
pub open spec fn scalar_view(s: Scalar) -> ScalarView {
    match s {
        Scalar::Str(t) => ScalarView::Str(t@),
        Scalar::Num(n) => ScalarView::Num(n),
        Scalar::Other => ScalarView::Other,
    }
}

/// The plain entries of an object.
pub open spec fn entries_view(v: Seq<(String, Scalar)>) -> Seq<(Seq<char>, ScalarView)> {
    v.map_values(|e: (String, Scalar)| (e.0@, scalar_view(e.1)))
}

/// The plain value of a field.
pub open spec fn field_view(f: Field) -> FieldView {
    match f {
        Field::Obj(v) => FieldView::Obj(entries_view(v@)),
        Field::Val(s) => FieldView::Val(scalar_view(s)),
    }
}

/// The plain top-level entries.
pub open spec fn fields_view(v: Seq<(String, Field)>) -> Seq<(Seq<char>, FieldView)> {
    v.map_values(|e: (String, Field)| (e.0@, field_view(e.1)))
}

/// The top-level entries `text` holds as JSON: those of its object, each
/// object value one level deep, in the order the parsed map lists them;
/// nothing when `text` is not JSON or not an object.
pub uninterp spec fn place_json_of(text: Seq<char>) -> Seq<(Seq<char>, FieldView)>;

/// `serde_json::from_str::<serde_json::Value>(text)`, its top-level object
/// taken apart into [`Field`]s.
#[verifier::external_body]
fn place_json(text: &str) -> (r: Vec<(String, Field)>)
    ensures
        fields_view(r@) == place_json_of(text@),
{
    let scalar = |v: &serde_json::Value| match v {
        serde_json::Value::String(t) => Scalar::Str(t.clone()),
        serde_json::Value::Number(n) => Scalar::Num(n.as_u64()),
        _ => Scalar::Other,
    };
    match serde_json::from_str::<serde_json::Value>(text) {
        Ok(serde_json::Value::Object(m)) => m.iter().map(|(k, v)| (k.clone(), match v {
            serde_json::Value::Object(o) => Field::Obj(o.iter().map(|(k2, v2)| (k2.clone(), scalar(v2))).collect()),
            other => Field::Val(scalar(other)),
        })).collect(),
        _ => Vec::new(),
    }
}

/// The first entry named `key`, if any.
pub open spec fn lookup<V>(entries: Seq<(Seq<char>, V)>, key: Seq<char>) -> Option<V>
    decreases entries.len(),
{
    if entries.len() == 0 {
        None
    } else if entries[0].0 == key {
        Some(entries[0].1)
    } else {
        lookup(entries.drop_first(), key)
    }
}

/// The string entry `key` of an object.
pub open spec fn text_in(entries: Seq<(Seq<char>, ScalarView)>, key: Seq<char>) -> Option<Seq<char>> {
    match lookup(entries, key) {
        Some(ScalarView::Str(t)) => Some(t),
        _ => None,
    }
}

/// The rows of an object whose values are unsigned numbers, in order.
pub open spec fn number_rows(entries: Seq<(Seq<char>, ScalarView)>) -> Seq<(Seq<char>, u64)>
    decreases entries.len(),
{
    if entries.len() == 0 {
        Seq::empty()
    } else {
        let before = number_rows(entries.drop_last());
        match entries.last().1 {
            ScalarView::Num(Some(n)) => before.push((entries.last().0, n)),
            _ => before,
        }
    }
}

/// The rows of an object whose values are strings, in order.
pub open spec fn text_rows(entries: Seq<(Seq<char>, ScalarView)>) -> Seq<(Seq<char>, Seq<char>)>
    decreases entries.len(),
{
    if entries.len() == 0 {
        Seq::empty()
    } else {
        let before = text_rows(entries.drop_last());
        match entries.last().1 {
            ScalarView::Str(t) => before.push((entries.last().0, t)),
            _ => before,
        }
    }
}

/// The object entries of top-level `key`; nothing when it is not an object.
pub open spec fn object_at(fields: Seq<(Seq<char>, FieldView)>, key: Seq<char>) -> Seq<(Seq<char>, ScalarView)> {
    match lookup(fields, key) {
        Some(FieldView::Obj(o)) => o,
        _ => Seq::empty(),
    }
}

/// The place a file's top-level entries hold: a whole aim or none, the open
/// engine where it is a string, the readable rows of `opened` and `aimed`,
/// and the dragged width where it is a number that fits 16 bits.
pub open spec fn place_from(fields: Seq<(Seq<char>, FieldView)>) -> (
    Option<(Seq<char>, Seq<char>)>,
    (Option<Seq<char>>, Seq<(Seq<char>, u64)>, Seq<(Seq<char>, Seq<char>)>),
    Option<u16>,
) {
    let aim = object_at(fields, "aim"@);
    (
        match (text_in(aim, "channel"@), text_in(aim, "address"@)) {
            (Some(c), Some(a)) => Some((c, a)),
            _ => None,
        },
        (
            match lookup(fields, "open"@) {
                Some(FieldView::Val(ScalarView::Str(t))) => Some(t),
                _ => None,
            },
            number_rows(object_at(fields, "opened"@)),
            text_rows(object_at(fields, "aimed"@)),
        ),
        match lookup(fields, "dragged"@) {
            Some(FieldView::Val(ScalarView::Num(Some(w)))) => if w <= u16::MAX {
                Some(w as u16)
            } else {
                None
            },
            _ => None,
        },
    )
}

/// A place as plain values.
pub open spec fn place_view(p: Place) -> (
    Option<(Seq<char>, Seq<char>)>,
    (Option<Seq<char>>, Seq<(Seq<char>, u64)>, Seq<(Seq<char>, Seq<char>)>),
    Option<u16>,
) {
    (aim_view(p.aim), engines_view(p.engines), p.dragged)
}

/// The place `text` — the file as read — holds; text that is not a JSON
/// object is no place.
pub fn place_of_text(text: &str) -> (p: Place)
    ensures
        place_view(p) == place_from(place_json_of(text@)),
{
    let fields = place_json(text);
    place_of_fields(&fields)
}

/// The index of the first entry named `key`, if any.
fn find<V>(entries: &Vec<(String, V)>, key: &str) -> (r: Option<usize>)
    ensures
        match r {
            Some(i) => i < entries@.len() && entries@[i as int].0@ == key@ && forall|j: int|
                0 <= j < i ==> (#[trigger] entries@[j]).0@ != key@,
            None => forall|j: int| 0 <= j < entries@.len() ==> (#[trigger] entries@[j]).0@ != key@,
        },
{
    let k = chars_of(key);
    let mut i: usize = 0;
    while i < entries.len()
        invariant
            i <= entries@.len(),
            k@ == key@,
            forall|j: int| 0 <= j < i ==> (#[trigger] entries@[j]).0@ != key@,
        decreases entries.len() - i,
    {
        if same_chars(&chars_of(entries[i].0.as_str()), &k) {
            return Some(i);
        }
        i += 1;
    }
    None
}

/// `lookup` finds the first entry with the key.
proof fn lemma_lookup_first<V>(entries: Seq<(Seq<char>, V)>, key: Seq<char>, i: int)
    requires
        0 <= i < entries.len(),
        entries[i].0 == key,
        forall|j: int| 0 <= j < i ==> (#[trigger] entries[j]).0 != key,
    ensures
        lookup(entries, key) == Some(entries[i].1),
    decreases i,
{
    if i > 0 {
        lemma_lookup_first(entries.drop_first(), key, i - 1);
    }
}

/// `lookup` finds nothing without the key.
proof fn lemma_lookup_none<V>(entries: Seq<(Seq<char>, V)>, key: Seq<char>)
    requires
        forall|j: int| 0 <= j < entries.len() ==> (#[trigger] entries[j]).0 != key,
    ensures
        lookup(entries, key) is None,
    decreases entries.len(),
{
    if entries.len() > 0 {
        lemma_lookup_none(entries.drop_first(), key);
    }
}

/// The string entry `key` of an object, as a fresh string.
fn text_of(entries: &Vec<(String, Scalar)>, key: &str) -> (r: Option<String>)
    ensures
        opt_chars(r) == text_in(entries_view(entries@), key@),
{
    let ghost ev = entries_view(entries@);
    match find(entries, key) {
        Some(i) => {
            proof {
                assert forall|j: int| 0 <= j < i implies (#[trigger] ev[j]).0 != key@ by {
                    assert(ev[j].0 == entries@[j].0@);
                }
                lemma_lookup_first(ev, key@, i as int);
            }
            match &entries[i].1 {
                Scalar::Str(t) => Some(t.clone()),
                _ => None,
            }
        },
        None => {
            proof {
                assert forall|j: int| 0 <= j < ev.len() implies (#[trigger] ev[j]).0 != key@ by {
                    assert(ev[j].0 == entries@[j].0@);
                }
                lemma_lookup_none(ev, key@);
            }
            None
        },
    }
}

/// The top-level field `key`, found as [`lookup`] finds it.
fn field_of<'a>(fields: &'a Vec<(String, Field)>, key: &str) -> (r: Option<&'a Field>)
    ensures
        match r {
            Some(f) => lookup(fields_view(fields@), key@) == Some(field_view(*f)),
            None => lookup(fields_view(fields@), key@) is None,
        },
{
    let ghost fv = fields_view(fields@);
    match find(fields, key) {
        Some(i) => {
            proof {
                assert forall|j: int| 0 <= j < i implies (#[trigger] fv[j]).0 != key@ by {
                    assert(fv[j].0 == fields@[j].0@);
                }
                lemma_lookup_first(fv, key@, i as int);
            }
            Some(&fields[i].1)
        },
        None => {
            proof {
                assert forall|j: int| 0 <= j < fv.len() implies (#[trigger] fv[j]).0 != key@ by {
                    assert(fv[j].0 == fields@[j].0@);
                }
                lemma_lookup_none(fv, key@);
            }
            None
        },
    }
}

/// The unsigned-number rows of an object, in order.
fn numbers_of(entries: &Vec<(String, Scalar)>) -> (r: Vec<(String, u64)>)
    ensures
        opened_view(r@) == number_rows(entries_view(entries@)),
{
    let mut r: Vec<(String, u64)> = Vec::new();
    let mut i: usize = 0;
    while i < entries.len()
        invariant
            i <= entries@.len(),
            opened_view(r@) == number_rows(entries_view(entries@.take(i as int))),
        decreases entries.len() - i,
    {
        proof {
            assert(entries_view(entries@.take(i + 1)).drop_last() =~= entries_view(entries@.take(i as int)));
        }
        match &entries[i].1 {
            Scalar::Num(Some(n)) => {
                let ghost before = r@;
                r.push((entries[i].0.clone(), *n));
                proof {
                    assert(opened_view(r@) =~= opened_view(before).push((entries@[i as int].0@, *n)));
                }
            },
            _ => {},
        }
        i += 1;
    }
    proof {
        assert(entries@.take(entries@.len() as int) =~= entries@);
    }
    r
}

/// The string rows of an object, in order.
fn texts_of(entries: &Vec<(String, Scalar)>) -> (r: Vec<(String, String)>)
    ensures
        aimed_view(r@) == text_rows(entries_view(entries@)),
{
    let mut r: Vec<(String, String)> = Vec::new();
    let mut i: usize = 0;
    while i < entries.len()
        invariant
            i <= entries@.len(),
            aimed_view(r@) == text_rows(entries_view(entries@.take(i as int))),
        decreases entries.len() - i,
    {
        proof {
            assert(entries_view(entries@.take(i + 1)).drop_last() =~= entries_view(entries@.take(i as int)));
        }
        match &entries[i].1 {
            Scalar::Str(t) => {
                let ghost before = r@;
                r.push((entries[i].0.clone(), t.clone()));
                proof {
                    assert(aimed_view(r@) =~= aimed_view(before).push((entries@[i as int].0@, t@)));
                }
            },
            _ => {},
        }
        i += 1;
    }
    proof {
        assert(entries@.take(entries@.len() as int) =~= entries@);
    }
    r
}

/// The place a file's top-level entries hold.
pub fn place_of_fields(fields: &Vec<(String, Field)>) -> (p: Place)
    ensures
        place_view(p) == place_from(fields_view(fields@)),
{
    let ghost fv = fields_view(fields@);
    let empty: Vec<(String, Scalar)> = Vec::new();
    let aim_entries: &Vec<(String, Scalar)> = match field_of(fields, "aim") {
        Some(Field::Obj(o)) => o,
        _ => &empty,
    };
    proof {
        assert(entries_view(empty@) =~= Seq::<(Seq<char>, ScalarView)>::empty());
        assert(entries_view(aim_entries@) == object_at(fv, "aim"@));
    }
    let aim = aim_from(text_of(aim_entries, "channel"), text_of(aim_entries, "address"));
    let open = match field_of(fields, "open") {
        Some(Field::Val(Scalar::Str(t))) => Some(t.clone()),
        _ => None,
    };
    let opened_entries: &Vec<(String, Scalar)> = match field_of(fields, "opened") {
        Some(Field::Obj(o)) => o,
        _ => &empty,
    };
    assert(entries_view(opened_entries@) == object_at(fv, "opened"@));
    let aimed_entries: &Vec<(String, Scalar)> = match field_of(fields, "aimed") {
        Some(Field::Obj(o)) => o,
        _ => &empty,
    };
    assert(entries_view(aimed_entries@) == object_at(fv, "aimed"@));
    let dragged = match field_of(fields, "dragged") {
        Some(Field::Val(Scalar::Num(Some(w)))) => if *w <= 65535 {
            Some(*w as u16)
        } else {
            None
        },
        _ => None,
    };
    Place {
        aim,
        engines: Engines { open, opened: numbers_of(opened_entries), aimed: texts_of(aimed_entries) },
        dragged,
    }
}

} // verus!
