//! The fallback policy that derives one display title from a player's raw
//! metadata: an optional artist list and an optional title.

use vstd::prelude::*;
use vstd::string::StringExecFns;

verus! {

/// The metadata held no usable title and no usable artist list.
#[derive(Clone, Copy, Debug, PartialEq, Eq, Structural)]
pub struct TitleUnavailable;

impl TitleUnavailable {
    /// The failure, described.
    pub fn message(&self) -> (m: String)
        ensures
            m@ == "Failed to parse media title from MPRIS Player"@,
    {
        String::from_str("Failed to parse media title from MPRIS Player")
    }
}

/// The members of `parts` joined with `sep` between each adjacent pair.
pub open spec fn join_spec(parts: Seq<Seq<char>>, sep: Seq<char>) -> Seq<char>
    decreases parts.len(),
{
    if parts.len() == 0 {
        Seq::empty()
    } else if parts.len() == 1 {
        parts[0]
    } else {
        join_spec(parts.drop_last(), sep) + sep + parts.last()
    }
}

/// Joins `parts` with `sep` between each adjacent pair.
pub fn join_with(parts: &Vec<String>, sep: &str) -> (r: String)
    ensures
        r@ == join_spec(parts.deep_view(), sep@),
{
    let mut r = String::new();
    let mut i: usize = 0;
    while i < parts.len()
        invariant
            i <= parts.len(),
            r@ == join_spec(parts.deep_view().take(i as int), sep@),
        decreases parts.len() - i,
    {
        if i > 0 {
            r.append(sep);
        }
        r.append(parts[i].as_str());
        proof {
            let all = parts.deep_view();
            let cur = all.take(i + 1);
            assert(cur.drop_last() =~= all.take(i as int));
            assert(cur.last() == all[i as int]);
            assert(r@ =~= join_spec(cur, sep@));
        }
        i += 1;
    }
    proof {
        assert(parts.deep_view().take(parts.len() as int) =~= parts.deep_view());
    }
    r
}

/// What `resolve_title` returns when both fields decoded: the artists joined
/// with a comma, then a dash, then the title.
pub open spec fn full_title_spec(artists: Seq<Seq<char>>, title: Seq<char>) -> Seq<char> {
    join_spec(artists, ", "@) + " - "@ + title
}

/// Derives the display title from a player's metadata.
///
/// An absent field stands for a field that was missing, of the wrong shape,
/// or undecodable. Both fields present yields `"<artists> - <title>"` with
/// the artists comma-joined; one present yields that one alone; neither
/// fails with [`TitleUnavailable`].
pub fn resolve_title(artists: Option<Vec<String>>, title: Option<String>) -> (r: Result<
    String,
    TitleUnavailable,
>)
    ensures
        match (artists, title) {
            (Some(a), Some(t)) => r matches Ok(s) && s@ == full_title_spec(a.deep_view(), t@),
            (None, Some(t)) => r matches Ok(s) && s@ == t@,
            (Some(a), None) => r matches Ok(s) && s@ == join_spec(a.deep_view(), ", "@),
            (None, None) => r matches Err(e) && e == TitleUnavailable,
        },
{
    match (artists, title) {
        (Some(a), Some(t)) => {
            let mut s = join_with(&a, ", ");
            s.append(" - ");
            s.append(t.as_str());
            proof {
                assert(s@ =~= full_title_spec(a.deep_view(), t@));
            }
            Ok(s)
        },
        (None, Some(t)) => Ok(t),
        (Some(a), None) => Ok(join_with(&a, ", ")),
        (None, None) => Err(TitleUnavailable),
    }
}

} // verus!
