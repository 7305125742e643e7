//! The window's model, as far as the seat's remembered place reads it: the
//! wall it is aimed at and the accordion of engines beside it. Name-keyed
//! tables are kept as `(name, value)` rows in ascending name order, the
//! order the on-disk object holds them in.

use vstd::prelude::*;

verus! {

/// A wall: the channel it is reached through and its address there.
#[derive(Debug, PartialEq, Eq)]
pub struct Aim {
    pub channel: String,
    pub address: String,
}

/// The accordion: which engine is open, what each engine's last opening
/// ranks as, and the wall last aimed under each.
#[derive(Debug, PartialEq, Eq, Default)]
pub struct Engines {
    pub open: Option<String>,
    pub opened: Vec<(String, u64)>,
    pub aimed: Vec<(String, String)>,
}

/// The window's state that outlives a run.
#[derive(Debug, PartialEq, Eq)]
pub struct Model {
    /// The wall the window is aimed at, if any.
    pub aim: Option<Aim>,
    /// How the engines are arranged.
    pub engines: Engines,
    /// The width the operator dragged the accordion to, if they did.
    pub dragged: Option<u16>,
}

/// An aim as two character sequences.
pub open spec fn aim_view(a: Option<Aim>) -> Option<(Seq<char>, Seq<char>)> {
    match a {
        Some(a) => Some((a.channel@, a.address@)),
        None => None,
    }
}

/// An optional string as characters.
pub open spec fn opt_chars(s: Option<String>) -> Option<Seq<char>> {
    match s {
        Some(s) => Some(s@),
        None => None,
    }
}

/// The `opened` rows as characters and ranks.
pub open spec fn opened_view(rows: Seq<(String, u64)>) -> Seq<(Seq<char>, u64)> {
    rows.map_values(|r: (String, u64)| (r.0@, r.1))
}

/// The `aimed` rows as characters.
pub open spec fn aimed_view(rows: Seq<(String, String)>) -> Seq<(Seq<char>, Seq<char>)> {
    rows.map_values(|r: (String, String)| (r.0@, r.1@))
}

/// The accordion as plain values.
pub open spec fn engines_view(e: Engines) -> (Option<Seq<char>>, Seq<(Seq<char>, u64)>, Seq<(Seq<char>, Seq<char>)>) {
    (opt_chars(e.open), opened_view(e.opened@), aimed_view(e.aimed@))
}

/// A fresh copy of an optional string.
pub fn copy_opt(s: &Option<String>) -> (r: Option<String>)
    ensures
        opt_chars(r) == opt_chars(*s),
{
    match s {
        Some(s) => Some(s.clone()),
        None => None,
    }
}

/// A fresh copy of an aim.
pub fn copy_aim(a: &Option<Aim>) -> (r: Option<Aim>)
    ensures
        aim_view(r) == aim_view(*a),
{
    match a {
        Some(a) => Some(Aim { channel: a.channel.clone(), address: a.address.clone() }),
        None => None,
    }
}

/// A fresh copy of the accordion.
pub fn copy_engines(e: &Engines) -> (r: Engines)
    ensures
        engines_view(r) == engines_view(*e),
{
    let mut opened: Vec<(String, u64)> = Vec::new();
    let mut i: usize = 0;
    while i < e.opened.len()
        invariant
            i <= e.opened.len(),
            opened@.len() == i,
            opened_view(opened@) == opened_view(e.opened@.take(i as int)),
        decreases e.opened.len() - i,
    {
        let name = e.opened[i].0.clone();
        let row = (name, e.opened[i].1);
        let ghost before = opened@;
        opened.push(row);
        proof {
            let t = e.opened@.take(i + 1);
            assert(t =~= e.opened@.take(i as int).push(e.opened@[i as int]));
            assert(opened@ =~= before.push(row));
            assert(opened_view(opened@).len() == opened_view(t).len());
            assert forall|x: int| 0 <= x < opened_view(t).len() implies opened_view(opened@)[x] == opened_view(t)[x] by {
                if x < i {
                    assert(opened_view(before)[x] == opened_view(e.opened@.take(i as int))[x]);
                }
            }
            assert(opened_view(opened@) =~= opened_view(t));
        }
        i += 1;
    }
    let mut aimed: Vec<(String, String)> = Vec::new();
    let mut j: usize = 0;
    while j < e.aimed.len()
        invariant
            j <= e.aimed.len(),
            aimed@.len() == j,
            aimed_view(aimed@) == aimed_view(e.aimed@.take(j as int)),
        decreases e.aimed.len() - j,
    {
        let name = e.aimed[j].0.clone();
        let wall = e.aimed[j].1.clone();
        let row = (name, wall);
        let ghost before = aimed@;
        aimed.push(row);
        proof {
            let t = e.aimed@.take(j + 1);
            assert(t =~= e.aimed@.take(j as int).push(e.aimed@[j as int]));
            assert(aimed@ =~= before.push(row));
            assert(aimed_view(aimed@).len() == aimed_view(t).len());
            assert forall|x: int| 0 <= x < aimed_view(t).len() implies aimed_view(aimed@)[x] == aimed_view(t)[x] by {
                if x < j {
                    assert(aimed_view(before)[x] == aimed_view(e.aimed@.take(j as int))[x]);
                }
            }
            assert(aimed_view(aimed@) =~= aimed_view(t));
        }
        j += 1;
    }
    proof {
        assert(e.opened@.take(e.opened@.len() as int) =~= e.opened@);
        assert(e.aimed@.take(e.aimed@.len() as int) =~= e.aimed@);
    }
    Engines { open: copy_opt(&e.open), opened, aimed }
}

} // verus!
