//! The well-known bus-name namespace for media players, and the filter that
//! derives the roster from a raw bus-name enumeration.

use vstd::prelude::*;
use vstd::string::StrSliceExecFns;

verus! {

/// The namespace that every media player's bus name carries.
pub open spec fn service_prefix_spec() -> Seq<char> {
    "org.mpris.MediaPlayer2."@
}

/// The namespace as a string slice, for executable code.
pub fn service_prefix() -> (s: &'static str)
    ensures
        s@ == service_prefix_spec(),
{
    "org.mpris.MediaPlayer2."
}

/// `p` is a prefix of `s`.
pub open spec fn has_prefix(s: Seq<char>, p: Seq<char>) -> bool {
    p.len() <= s.len() && s.subrange(0, p.len() as int) == p
}

/// Whether `s` starts with `p`, compared character by character.
pub fn str_has_prefix(s: &str, p: &str) -> (r: bool)
    ensures
        r == has_prefix(s@, p@),
{
    let n = p.unicode_len();
    if s.unicode_len() < n {
        return false;
    }
    let mut i: usize = 0;
    while i < n
        invariant
            i <= n,
            n == p@.len(),
            n <= s@.len(),
            forall|j: int| 0 <= j < i ==> s@[j] == p@[j],
        decreases n - i,
    {
        if s.get_char(i) != p.get_char(i) {
            assert(s@.subrange(0, n as int)[i as int] != p@[i as int]);
            return false;
        }
        i += 1;
    }
    assert(s@.subrange(0, n as int) =~= p@);
    true
}

/// Whether `a` and `b` hold the same characters.
pub fn str_equal(a: &str, b: &str) -> (r: bool)
    ensures
        r == (a@ == b@),
{
    let n = a.unicode_len();
    if b.unicode_len() != n {
        return false;
    }
    let mut i: usize = 0;
    while i < n
        invariant
            i <= n,
            n == a@.len(),
            n == b@.len(),
            forall|j: int| 0 <= j < i ==> a@[j] == b@[j],
        decreases n - i,
    {
        if a.get_char(i) != b.get_char(i) {
            return false;
        }
        i += 1;
    }
    assert(a@ =~= b@);
    true
}

/// A bus name that belongs to a media player: one inside the namespace.
pub open spec fn is_player_name(s: Seq<char>) -> bool {
    has_prefix(s, service_prefix_spec())
}

/// Whether `s` names a media player.
pub fn has_player_prefix(s: &str) -> (r: bool)
    ensures
        r == is_player_name(s@),
{
    str_has_prefix(s, service_prefix())
}

/// The display name of a player: its identity with the namespace stripped,
/// or the identity itself where the namespace is absent.
pub open spec fn short_name_spec(s: Seq<char>) -> Seq<char> {
    if has_prefix(s, service_prefix_spec()) {
        s.subrange(service_prefix_spec().len() as int, s.len() as int)
    } else {
        s
    }
}

/// Strips the namespace from a player identity.
pub fn short_name(s: &str) -> (r: &str)
    ensures
        r@ == short_name_spec(s@),
{
    let p = service_prefix();
    if str_has_prefix(s, p) {
        s.substring_char(p.unicode_len(), s.unicode_len())
    } else {
        s
    }
}

/// The members of `names` that belong to media players, in order.
pub open spec fn filter_players_spec(names: Seq<Seq<char>>) -> Seq<Seq<char>>
    decreases names.len(),
{
    if names.len() == 0 {
        Seq::empty()
    } else {
        let rest = filter_players_spec(names.drop_last());
        if is_player_name(names.last()) {
            rest.push(names.last())
        } else {
            rest
        }
    }
}

/// Derives the roster from a raw bus-name enumeration: keeps exactly the
/// names inside the media-player namespace, in enumeration order.
pub fn plan_roster(names: &Vec<String>) -> (r: Vec<String>)
    ensures
        r.deep_view() == filter_players_spec(names.deep_view()),
{
    let mut r: Vec<String> = Vec::new();
    let mut i: usize = 0;
    while i < names.len()
        invariant
            i <= names.len(),
            r.deep_view() == filter_players_spec(names.deep_view().take(i as int)),
        decreases names.len() - i,
    {
        let ghost prev = names.deep_view().take(i as int);
        if has_player_prefix(names[i].as_str()) {
            r.push(names[i].clone());
        }
        proof {
            let cur = names.deep_view().take(i + 1);
            assert(cur.drop_last() =~= prev);
            assert(cur.last() == names.deep_view()[i as int]);
            assert(r.deep_view() =~= filter_players_spec(cur));
        }
        i += 1;
    }
    proof {
        assert(names.deep_view().take(names.len() as int) =~= names.deep_view());
    }
    r
}

} // verus!
