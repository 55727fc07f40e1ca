//! External command resolution: scan the search-path directories in order and
//! return the first entry whose path names the requested command.
//!
//! Directory contents are handed in as data: `listings[i]` holds the full
//! child paths of the `i`-th search-path directory, in the order the driver
//! listed them, and a directory that could not be listed is an empty listing.

use crate::strutil::push_char;
use vstd::prelude::*;

verus! {

/// A character sequence split at every colon: the pieces between colons, in
/// order, kept even when empty, so an empty input is one empty piece.
pub open spec fn split_colon(s: Seq<char>) -> Seq<Seq<char>>
    decreases s.len(),
{
    if s.len() == 0 {
        seq![Seq::<char>::empty()]
    } else if s.last() == ':' {
        split_colon(s.drop_last()).push(Seq::empty())
    } else {
        let prev = split_colon(s.drop_last());
        prev.update(prev.len() - 1, prev.last().push(s.last()))
    }
}

/// Parse a colon-separated search-path value into its directory entries.
pub fn split_path(path: &str) -> (r: Vec<String>)
    ensures
        r.deep_view() == split_colon(path@),
{
    let n = path.unicode_len();
    let mut r: Vec<String> = Vec::new();
    let mut acc = String::new();
    let mut i: usize = 0;
    proof {
        assert(r.deep_view().push(acc@) =~~= split_colon(path@.take(0)));
    }
    while i < n
        invariant
            i <= n,
            n == path@.len(),
            r.deep_view().push(acc@) == split_colon(path@.take(i as int)),
        decreases n - i,
    {
        let ghost prev = r.deep_view().push(acc@);
        let c = path.get_char(i);
        if c == ':' {
            let ghost rdv0 = r.deep_view();
            let ghost rv0 = r@;
            r.push(acc);
            acc = String::new();
            proof {
                assert forall|k: int| 0 <= k < rdv0.len() implies r.deep_view()[k] == rdv0[k] by {
                    assert(r@[k] == rv0[k]);
                }
                assert(r.deep_view() =~~= prev);
            }
        } else {
            push_char(&mut acc, c);
        }
        i = i + 1;
        proof {
            assert(path@.take(i as int).drop_last() =~= path@.take(i as int - 1));
            assert(path@.take(i as int).last() == c);
            if c == ':' {
                assert(r.deep_view().push(acc@) =~~= prev.push(Seq::<char>::empty()));
            } else {
                assert(r.deep_view().push(acc@) =~~= prev.update(prev.len() - 1, prev.last().push(c)));
            }
        }
    }
    proof {
        assert(path@.take(n as int) =~= path@);
    }
    let ghost rdv0 = r.deep_view();
    let ghost av0 = acc@;
    let ghost rv0 = r@;
    r.push(acc);
    proof {
        assert forall|k: int| 0 <= k < rdv0.len() implies r.deep_view()[k] == rdv0[k] by {
            assert(r@[k] == rv0[k]);
        }
        assert(r.deep_view() =~~= rdv0.push(av0));
    }
    r
}

/// A directory entry names the command when it ends with a path separator
/// followed by exactly the command name.
pub open spec fn entry_matches(entry: Seq<char>, cmd: Seq<char>) -> bool {
    &&& entry.len() > cmd.len()
    &&& entry[entry.len() - cmd.len() - 1] == '/'
    &&& entry.subrange(entry.len() - cmd.len(), entry.len() as int) == cmd
}

/// The first matching entry of one directory listing, in listing order.
pub open spec fn resolve_in_dir(entries: Seq<Seq<char>>, cmd: Seq<char>) -> Option<Seq<char>>
    decreases entries.len(),
{
    if entries.len() == 0 {
        None
    } else if entry_matches(entries[0], cmd) {
        Some(entries[0])
    } else {
        resolve_in_dir(entries.drop_first(), cmd)
    }
}

/// The first matching entry over all listings, scanning the search path left
/// to right: a match in an earlier directory always wins.
pub open spec fn resolve_spec(listings: Seq<Seq<Seq<char>>>, cmd: Seq<char>) -> Option<Seq<char>>
    decreases listings.len(),
{
    if listings.len() == 0 {
        None
    } else {
        match resolve_in_dir(listings[0], cmd) {
            Some(p) => Some(p),
            None => resolve_spec(listings.drop_first(), cmd),
        }
    }
}

/// Whether one entry's path ends with `/` followed by the command name.
fn entry_ends_with_cmd(entry: &String, cmd: &str) -> (r: bool)
    ensures
        r == entry_matches(entry@, cmd@),
{
    let ne = entry.as_str().unicode_len();
    let nc = cmd.unicode_len();
    if ne <= nc {
        return false;
    }
    if entry.as_str().get_char(ne - nc - 1) != '/' {
        return false;
    }
    let mut j: usize = 0;
    while j < nc
        invariant
            j <= nc,
            ne == entry@.len(),
            nc == cmd@.len(),
            ne > nc,
            forall|k: int| 0 <= k < j ==> entry@[ne - nc + k] == cmd@[k],
        decreases nc - j,
    {
        if entry.as_str().get_char(ne - nc + j) != cmd.get_char(j) {
            proof {
                assert(entry@.subrange(ne - nc, ne as int)[j as int] == entry@[ne - nc + j]);
            }
            return false;
        }
        j = j + 1;
    }
    proof {
        assert(entry@.subrange(ne - nc, ne as int) =~= cmd@);
    }
    true
}

/// Find a command among the listed search-path directories.
/// Returns the first entry, in search-path order and then listing order,
/// whose path ends with `/` followed by the command name.
pub fn find_cmd_in_path(cmd: &str, listings: &Vec<Vec<String>>) -> (r: Option<String>)
    ensures
        r.deep_view() == resolve_spec(listings.deep_view(), cmd@),
{
    let nd = listings.len();
    let mut d: usize = 0;
    proof {
        assert(listings.deep_view().skip(0) =~= listings.deep_view());
    }
    while d < nd
        invariant
            d <= nd,
            nd == listings@.len(),
            resolve_spec(listings.deep_view(), cmd@) == resolve_spec(
                listings.deep_view().skip(d as int),
                cmd@,
            ),
        decreases nd - d,
    {
        let ghost tail = listings.deep_view().skip(d as int);
        let entries = &listings[d];
        proof {
            assert(tail[0] == entries.deep_view());
        }
        let ne = entries.len();
        let mut j: usize = 0;
        proof {
            assert(entries.deep_view().skip(0) =~= entries.deep_view());
        }
        while j < ne
            invariant
                j <= ne,
                ne == entries@.len(),
                d < nd,
                nd == listings@.len(),
                entries == &listings[d as int],
                resolve_spec(listings.deep_view(), cmd@) == resolve_spec(
                    listings.deep_view().skip(d as int),
                    cmd@,
                ),
                resolve_in_dir(entries.deep_view(), cmd@) == resolve_in_dir(
                    entries.deep_view().skip(j as int),
                    cmd@,
                ),
            decreases ne - j,
        {
            let ghost dtail = entries.deep_view().skip(j as int);
            proof {
                assert(dtail[0] == entries[j as int]@);
            }
            if entry_ends_with_cmd(&entries[j], cmd) {
                let found = entries[j].clone();
                proof {
                    assert(resolve_in_dir(dtail, cmd@) == Some(entries[j as int]@));
                    assert(listings.deep_view().skip(d as int)[0] == entries.deep_view());
                    assert(resolve_spec(listings.deep_view().skip(d as int), cmd@) == Some(
                        entries[j as int]@,
                    ));
                }
                return Some(found);
            }
            j = j + 1;
            proof {
                assert(dtail.drop_first() =~= entries.deep_view().skip(j as int));
            }
        }
        d = d + 1;
        proof {
            assert(resolve_in_dir(entries.deep_view().skip(ne as int), cmd@) is None);
            assert(resolve_in_dir(entries.deep_view(), cmd@) is None);
            assert(tail.drop_first() =~= listings.deep_view().skip(d as int));
        }
    }
    proof {
        assert(resolve_spec(listings.deep_view().skip(nd as int), cmd@) is None);
    }
    None
}

/// A command that no directory of the search path lists is never resolved:
/// the resolver returns a path exactly when some listing entry names the
/// command.
pub proof fn lemma_resolve_none(listings: Seq<Seq<Seq<char>>>, cmd: Seq<char>)
    ensures
        resolve_spec(listings, cmd) is None <==> forall|i: int, j: int|
            0 <= i < listings.len() && 0 <= j < listings[i].len() ==> !entry_matches(
                listings[i][j],
                cmd,
            ),
    decreases listings.len(),
{
    if listings.len() > 0 {
        lemma_resolve_in_dir_none(listings[0], cmd);
        lemma_resolve_none(listings.drop_first(), cmd);
        if resolve_spec(listings, cmd) is None {
            assert forall|i: int, j: int|
                0 <= i < listings.len() && 0 <= j < listings[i].len() implies !entry_matches(
                listings[i][j],
                cmd,
            ) by {
                if i > 0 {
                    assert(listings.drop_first()[i - 1] == listings[i]);
                }
            }
        } else {
            if resolve_in_dir(listings[0], cmd) is None {
                assert(exists|i: int, j: int|
                    0 <= i < listings.drop_first().len() && 0 <= j
                        < listings.drop_first()[i].len() && entry_matches(
                        listings.drop_first()[i][j],
                        cmd,
                    ));
                let (i, j): (int, int) = choose|i: int, j: int|
                    0 <= i < listings.drop_first().len() && 0 <= j
                        < listings.drop_first()[i].len() && entry_matches(
                        listings.drop_first()[i][j],
                        cmd,
                    );
                assert(listings[i + 1] == listings.drop_first()[i]);
                assert(entry_matches(listings[i + 1][j], cmd));
            }
        }
    }
}

/// One directory's resolution is `None` exactly when no entry of it matches.
pub proof fn lemma_resolve_in_dir_none(entries: Seq<Seq<char>>, cmd: Seq<char>)
    ensures
        resolve_in_dir(entries, cmd) is None <==> forall|j: int|
            0 <= j < entries.len() ==> !entry_matches(entries[j], cmd),
    decreases entries.len(),
{
    if entries.len() > 0 {
        lemma_resolve_in_dir_none(entries.drop_first(), cmd);
        if resolve_in_dir(entries, cmd) is None {
            assert forall|j: int| 0 <= j < entries.len() implies !entry_matches(
                entries[j],
                cmd,
            ) by {
                if j > 0 {
                    assert(entries.drop_first()[j - 1] == entries[j]);
                }
            }
        }
    }
}

/// First match wins: when the first directory of the search path resolves the
/// command, the whole search resolves it to that same entry, whatever the
/// later directories hold.
pub proof fn lemma_first_match_wins(listings: Seq<Seq<Seq<char>>>, cmd: Seq<char>)
    requires
        listings.len() > 0,
        resolve_in_dir(listings[0], cmd) is Some,
    ensures
        resolve_spec(listings, cmd) == resolve_in_dir(listings[0], cmd),
{
}

} // verus!
