//! **Where this box keeps what the operator gave it, and what it generates
//! about itself** — two roots, split because a regenerable subtree beside
//! irreplaceable material would make a rebuild look like a revocation.
//!
//! The data root holds operator-provisioned channel material; the state
//! root holds what the seat generates (its saved place). Each follows the
//! XDG convention: the variable that names the root outright
//! (`XDG_DATA_HOME`, `XDG_STATE_HOME`), else the home-relative default
//! (`.local/share`, `.local/state`), with `lernie` under it. An empty
//! variable is an unset one, and neither set is a refusal, never a guess.
//! Reading the environment is the process edge's job; the rule is here.

use vstd::prelude::*;
use crate::text::{append_str, chars_of, has_prefix};

verus! {

/// The directory the seat's own data lives in, under whichever root.
pub const HOME: &'static str = "lernie";
/// The data convention's default, relative to `HOME`.
pub const DEFAULT: &'static str = ".local/share";
/// The state convention's default, relative to `HOME`.
pub const DEFAULT_STATE: &'static str = ".local/state";

/// The refusal when no data root is named.
pub const DATA_REFUSAL: &'static str = "this box's data root is not named: set XDG_DATA_HOME, or HOME so that .local/share/lernie under it can be found. lernie will not guess \u{2014} an operator's certificates would land wherever this process happened to be started.";

/// The refusal when no state root is named.
pub const STATE_REFUSAL: &'static str = "this box's state root is not named: set XDG_STATE_HOME, or HOME so that .local/state/lernie under it can be found. Nothing is lost but what the window remembers between runs.";

/// `Path::join` for a relative or absolute `part`: an absolute part
/// replaces the base; otherwise one `/` separates them unless the base is
/// empty or already ends in one.
pub open spec fn join_spec(base: Seq<char>, part: Seq<char>) -> Seq<char> {
    if part.len() > 0 && part[0] == '/' {
        part
    } else if base.len() == 0 {
        part
    } else if base.last() == '/' {
        base + part
    } else {
        base + "/"@ + part
    }
}

/// `Path::new(base).join(part)`, as a string.
pub fn join(base: &str, part: &str) -> (r: String)
    ensures
        r@ == join_spec(base@, part@),
{
    let b = chars_of(base);
    let p = chars_of(part);
    let mut r = String::new();
    if p.len() > 0 && p[0] == '/' {
        append_str(&mut r, part);
    } else if b.len() == 0 {
        append_str(&mut r, part);
    } else if b[b.len() - 1] == '/' {
        append_str(&mut r, base);
        append_str(&mut r, part);
    } else {
        append_str(&mut r, base);
        append_str(&mut r, "/");
        append_str(&mut r, part);
    }
    r
}

/// One variable's value, or nothing when it said nothing.
pub open spec fn stated_spec(value: Option<Seq<char>>) -> Option<Seq<char>> {
    match value {
        Some(v) => if v.len() > 0 {
            Some(v)
        } else {
            None
        },
        None => None,
    }
}

/// The convention's ladder: the variable that names a root outright, else
/// the home-relative default under it.
pub open spec fn under_spec(
    xdg: Option<Seq<char>>,
    home: Option<Seq<char>>,
    default: Seq<char>,
) -> Option<Seq<char>> {
    match stated_spec(xdg) {
        Some(root) => Some(join_spec(root, HOME@)),
        None => match stated_spec(home) {
            Some(h) => Some(join_spec(join_spec(h, default), HOME@)),
            None => None,
        },
    }
}

/// The view of an optional string slice.
pub open spec fn opt_view(v: Option<&str>) -> Option<Seq<char>> {
    match v {
        Some(s) => Some(s@),
        None => None,
    }
}

/// One variable's value, or nothing when it is unset or empty: a launcher
/// that exports a name with no value has said nothing.
pub fn stated(value: Option<&str>) -> (r: Option<&str>)
    ensures
        opt_view(r) == stated_spec(opt_view(value)),
{
    match value {
        Some(v) => {
            let c = chars_of(v);
            if c.len() > 0 {
                Some(v)
            } else {
                None
            }
        },
        None => None,
    }
}

/// The ladder, computed.
pub fn under(xdg: Option<&str>, home: Option<&str>, default: &str) -> (r: Option<String>)
    ensures
        match r {
            Some(p) => under_spec(opt_view(xdg), opt_view(home), default@) == Some(p@),
            None => under_spec(opt_view(xdg), opt_view(home), default@) is None,
        },
{
    if let Some(root) = stated(xdg) {
        return Some(join(root, HOME));
    }
    match stated(home) {
        Some(h) => {
            let base = join(h, default);
            Some(join(base.as_str(), HOME))
        },
        None => None,
    }
}

/// The data root's pure core: the environment as two values.
pub fn root_of(xdg: Option<&str>, home: Option<&str>) -> (r: Result<String, String>)
    ensures
        match r {
            Ok(p) => under_spec(opt_view(xdg), opt_view(home), DEFAULT@) == Some(p@),
            Err(msg) => under_spec(opt_view(xdg), opt_view(home), DEFAULT@) is None && msg@
                == DATA_REFUSAL@,
        },
{
    match under(xdg, home, DEFAULT) {
        Some(p) => Ok(p),
        None => {
            let mut msg = String::new();
            append_str(&mut msg, DATA_REFUSAL);
            Err(msg)
        },
    }
}

/// The state root's pure core: the same ladder, a different sentence.
pub fn keep_of(xdg: Option<&str>, home: Option<&str>) -> (r: Result<String, String>)
    ensures
        match r {
            Ok(p) => under_spec(opt_view(xdg), opt_view(home), DEFAULT_STATE@) == Some(p@),
            Err(msg) => under_spec(opt_view(xdg), opt_view(home), DEFAULT_STATE@) is None && msg@
                == STATE_REFUSAL@,
        },
{
    match under(xdg, home, DEFAULT_STATE) {
        Some(p) => Ok(p),
        None => {
            let mut msg = String::new();
            append_str(&mut msg, STATE_REFUSAL);
            Err(msg)
        },
    }
}

/// What the seat generates never lands beside what the operator carried:
/// derived from the same home, the state root and the data root differ and
/// neither is a prefix of the other.
pub proof fn law_state_root_is_never_beside_the_data_root(home: Seq<char>)
    requires
        home.len() > 0,
    ensures
        ({
            let data = under_spec(None, Some(home), DEFAULT@)->0;
            let kept = under_spec(None, Some(home), DEFAULT_STATE@)->0;
            &&& data != kept
            &&& !has_prefix(kept, data)
            &&& !has_prefix(data, kept)
        }),
{
    reveal_strlit(".local/share");
    reveal_strlit(".local/state");
    reveal_strlit("/");
    reveal_strlit("lernie");
    let data = under_spec(None, Some(home), DEFAULT@)->0;
    let kept = under_spec(None, Some(home), DEFAULT_STATE@)->0;
    let base = if home.last() == '/' {
        home
    } else {
        home + "/"@
    };
    assert(join_spec(home, DEFAULT@) == base + DEFAULT@);
    assert(join_spec(home, DEFAULT_STATE@) == base + DEFAULT_STATE@);
    let d1 = base + DEFAULT@;
    let k1 = base + DEFAULT_STATE@;
    assert(d1.len() == k1.len());
    let at = (base.len() + 8) as int;
    assert(d1[at] == 'h');
    assert(k1[at] == 't');
    assert(d1.last() == 'e');
    assert(k1.last() == 'e');
    assert(data == d1 + "/"@ + HOME@);
    assert(kept == k1 + "/"@ + HOME@);
    assert(data.len() == kept.len());
    assert(data[at] != kept[at]);
    assert(data.subrange(0, data.len() as int) =~= data);
    assert(kept.subrange(0, kept.len() as int) =~= kept);
}

/// **A stated variable names the root outright**: for any non-empty value
/// `x` of the convention's variable, the root is `lernie` joined onto `x`
/// itself, whatever the home and whatever the home-relative default, so the
/// data root and the state root (`XDG_DATA_HOME`, `XDG_STATE_HOME`) both
/// take it as given.
pub proof fn law_stated_variable_names_the_root(x: Seq<char>, home: Option<Seq<char>>, default: Seq<char>)
    requires
        x.len() > 0,
    ensures
        under_spec(Some(x), home, default) == Some(
            if x.last() == '/' {
                x + "lernie"@
            } else {
                x + "/"@ + "lernie"@
            },
        ),
        under_spec(Some(x), home, DEFAULT_STATE@) == under_spec(Some(x), home, DEFAULT@),
{
    reveal_strlit("lernie");
}

/// **Without the variable, the root sits under the home**: an unset or
/// empty variable and a non-empty home `h` give `h`, then the default, then
/// `lernie`; with neither named there is no root.
pub proof fn law_home_relative_fallback(xdg: Option<Seq<char>>, home: Option<Seq<char>>, default: Seq<char>)
    requires
        xdg matches Some(v) ==> v.len() == 0,
    ensures
        (home matches Some(h) ==> (h.len() > 0 ==> under_spec(xdg, home, default) == Some(
            join_spec(join_spec(h, default), "lernie"@),
        ))),
        !(home matches Some(h) && h.len() > 0) ==> under_spec(xdg, home, default) is None,
{
}

} // verus!
