//! Request search across workspaces and case-insensitive matching.
//!
//! Hits in the current workspace come first (switching workspaces costs the
//! user something); the keyword matches name, URL, method, collection (group)
//! and workspace name without regard to ASCII case; an empty keyword returns
//! everything in the original order.

use vstd::prelude::*;
use vstd::utf8::encode_utf8;
use vstd::string::{StringSliceAdditionalSpecFns, StringExecFns};
use crate::text::{lowercase, to_lowercase, trim_str, trimmed, push_char};
use crate::nav::{paths_equal, same_workspace};

verus! {

/// ASCII lower-casing of one byte; other bytes stay as they are.
pub open spec fn ascii_lower(b: u8) -> u8 {
    if 65 <= b <= 90 {
        (b + 32) as u8
    } else {
        b
    }
}

/// `needle` occurs at byte offset `i` of `hay`, with ASCII letters of `hay`
/// lower-cased first.
pub open spec fn matches_at(hay: Seq<u8>, needle: Seq<u8>, i: int) -> bool {
    &&& 0 <= i
    &&& i + needle.len() <= hay.len()
    &&& forall|j: int| 0 <= j < needle.len() ==> ascii_lower(#[trigger] hay[i + j]) == needle[j]
}

/// `needle` occurs somewhere in `hay`, ASCII case ignored on the side of `hay`.
pub open spec fn contains_ci_bytes(hay: Seq<u8>, needle: Seq<u8>) -> bool {
    exists|i: int| matches_at(hay, needle, i)
}

/// Case-insensitive substring test without allocating.
///
/// Compares byte by byte: ASCII letters of `haystack` are lower-cased, other
/// bytes must be equal. Continuation bytes of UTF-8 are all at least 0x80, so
/// they never meet an ASCII byte; `needle_lower` is expected in lower case.
pub fn contains_ci(haystack: &str, needle_lower: &str) -> (r: bool)
    ensures
        r == contains_ci_bytes(haystack.spec_bytes(), needle_lower.spec_bytes()),
{
    let n = needle_lower.as_bytes();
    let h = haystack.as_bytes();
    if n.len() == 0 {
        proof {
            assert(matches_at(h@, n@, 0));
        }
        return true;
    }
    if n.len() > h.len() {
        return false;
    }
    let last = h.len() - n.len();
    let hlen = h.len();
    let mut i: usize = 0;
    while i <= last
        invariant
            hlen == h@.len(),
            n@.len() >= 1,
            h@ == haystack.spec_bytes(),
            n@ == needle_lower.spec_bytes(),
            last == h@.len() - n@.len(),
            0 <= i <= last + 1,
            forall|k: int| 0 <= k < i ==> !matches_at(h@, n@, k),
        decreases last + 1 - i,
    {
        let mut j: usize = 0;
        let mut ok = true;
        while j < n.len() && ok
            invariant
                hlen == h@.len(),
                h@ == haystack.spec_bytes(),
                n@ == needle_lower.spec_bytes(),
                i + n@.len() <= h@.len(),
                0 <= j <= n@.len(),
                ok ==> forall|k: int| 0 <= k < j ==> ascii_lower(#[trigger] h@[i + k]) == n@[k],
                !ok ==> !matches_at(h@, n@, i as int),
            decreases n@.len() - j + if ok {
                1int
            } else {
                0int
            },
        {
            let b = h[i + j];
            let lower = if 65 <= b && b <= 90 {
                b + 32
            } else {
                b
            };
            if lower != n[j] {
                ok = false;
                proof {
                    assert(ascii_lower(h@[i + j]) != n@[j as int]);
                }
            } else {
                j = j + 1;
            }
        }
        if ok {
            proof {
                assert(matches_at(h@, n@, i as int));
            }
            return true;
        }
        i = i + 1;
    }
    false
}

/// The search text of some parts: the non-empty parts, lower-cased, joined by
/// newlines.
pub open spec fn haystack_of(parts: Seq<Seq<char>>) -> Seq<char>
    decreases parts.len(),
{
    if parts.len() == 0 {
        seq![]
    } else {
        let h = haystack_of(parts.drop_last());
        let p = parts.last();
        if p.len() == 0 {
            h
        } else if h.len() == 0 {
            lowercase(p)
        } else {
            h.push('\n') + lowercase(p)
        }
    }
}

/// Texts joined into one, with a `\n` between each two.
pub open spec fn newline_joined(ls: Seq<Seq<char>>) -> Seq<char>
    decreases ls.len(),
{
    if ls.len() == 0 {
        seq![]
    } else if ls.len() == 1 {
        ls[0]
    } else {
        newline_joined(ls.drop_last()).push('\n') + ls.last()
    }
}

/// The non-empty texts among `ps`, lower-cased.
pub open spec fn lowered_parts(ps: Seq<Seq<char>>) -> Seq<Seq<char>> {
    ps.filter(|p: Seq<char>| p.len() > 0).map_values(|p: Seq<char>| lowercase(p))
}

/// The characters of some string slices.
pub open spec fn strs_view(parts: Seq<&str>) -> Seq<Seq<char>> {
    parts.map_values(|p: &str| p@)
}

/// Joins some searchable texts into one lower-case search string (built once
/// per index entry; each keystroke then only does substring tests).
pub fn haystack(parts: &[&str]) -> (out: String)
    ensures
        out@ == haystack_of(strs_view(parts@)),
        out@ == newline_joined(lowered_parts(strs_view(parts@))),
{
    let ghost ps = strs_view(parts@);
    let mut out = String::new();
    let mut i: usize = 0;
    proof {
        assert(ps.take(0) =~= Seq::<Seq<char>>::empty());
        assert(lowered_parts(ps.take(0)) =~= Seq::<Seq<char>>::empty());
    }
    while i < parts.len()
        invariant
            ps == strs_view(parts@),
            i <= parts@.len(),
            out@ == haystack_of(ps.take(i as int)),
            out@ == newline_joined(lowered_parts(ps.take(i as int))),
            out@.len() == 0 <==> lowered_parts(ps.take(i as int)).len() == 0,
        decreases parts@.len() - i,
    {
        let p = parts[i];
        let ghost before = lowered_parts(ps.take(i as int));
        proof {
            assert(ps.take(i + 1).drop_last() =~= ps.take(i as int));
            assert(ps.take(i + 1).last() == p@);
            reveal_with_fuel(Seq::<Seq<char>>::filter, 1);
            let f = |q: Seq<char>| q.len() > 0;
            assert(ps.take(i + 1).filter(f) == if p@.len() > 0 {
                ps.take(i as int).filter(f).push(p@)
            } else {
                ps.take(i as int).filter(f)
            });
            if p@.len() > 0 {
                assert(lowered_parts(ps.take(i + 1)) =~= before.push(lowercase(p@)));
                assert(before.push(lowercase(p@)).drop_last() =~= before);
            } else {
                assert(lowered_parts(ps.take(i + 1)) =~= before);
            }
        }
        if !p.is_empty() {
            if !out.as_str().is_empty() {
                push_char(&mut out, '\n');
            }
            let low = to_lowercase(p);
            out.append(low.as_str());
        }
        i = i + 1;
    }
    proof {
        assert(ps.take(i as int) =~= ps);
    }
    out
}

/// What a search entry exposes to the search. An implementation states what
/// its two methods give through the two spec functions.
pub trait Hit {
    /// The root directory of the entry's workspace.
    spec fn hit_workspace(&self) -> Seq<char>;

    /// The entry's lower-case search text.
    spec fn hit_text(&self) -> Seq<char>;

    /// Root directory of the entry's workspace.
    fn workspace(&self) -> (r: &str)
        ensures
            r@ == self.hit_workspace(),
    ;

    /// The entry's lower-case search text (see [`haystack`]).
    fn haystack(&self) -> (r: &str)
        ensures
            r@ == self.hit_text(),
    ;
}

/// Whether an entry with search text `hay` matches the lower-case keyword `q`
/// (an empty keyword matches everything).
pub open spec fn hit_matches(hay: Seq<char>, q: Seq<char>) -> bool {
    q.len() == 0 || contains_ci_bytes(encode_utf8(hay), encode_utf8(q))
}

/// Indices `i` from `from` on whose entry matches and lies in the current
/// workspace (`same`) or outside it (`!same`), in order.
pub open spec fn ranked_part(
    wss: Seq<Seq<char>>,
    hays: Seq<Seq<char>>,
    current: Seq<char>,
    q: Seq<char>,
    same: bool,
    n: int,
) -> Seq<usize>
    decreases n,
{
    if n <= 0 {
        seq![]
    } else {
        let rest = ranked_part(wss, hays, current, q, same, n - 1);
        let i = n - 1;
        if same_workspace(wss[i], current) == same && hit_matches(hays[i], q) {
            rest.push(i as usize)
        } else {
            rest
        }
    }
}

/// The ranked indices for the lower-case keyword `q`: matches in the current
/// workspace, then the others, cut to `limit`.
pub open spec fn ranked_for(
    wss: Seq<Seq<char>>,
    hays: Seq<Seq<char>>,
    current: Seq<char>,
    q: Seq<char>,
    limit: usize,
) -> Seq<usize> {
    let all = ranked_part(wss, hays, current, q, true, wss.len() as int) + ranked_part(
        wss,
        hays,
        current,
        q,
        false,
        wss.len() as int,
    );
    if all.len() <= limit {
        all
    } else {
        all.take(limit as int)
    }
}

/// The ranked indices for a typed query: trimmed and lower-cased first (see
/// [`ranked_for`]).
pub open spec fn ranked(
    wss: Seq<Seq<char>>,
    hays: Seq<Seq<char>>,
    current: Seq<char>,
    query: Seq<char>,
    limit: usize,
) -> Seq<usize> {
    ranked_for(wss, hays, current, lowercase(trimmed(query)), limit)
}

/// Ranks entries given by their workspace roots and search texts: matches in
/// `current` first, then the others, each in their original order, cut to `limit`.
pub fn rank_entries(
    workspaces: &Vec<&str>,
    haystacks: &Vec<&str>,
    current: &str,
    query: &str,
    limit: usize,
) -> (out: Vec<usize>)
    requires
        workspaces@.len() == haystacks@.len(),
    ensures
        out@ == ranked(strs_view(workspaces@), strs_view(haystacks@), current@, query@, limit),
        trimmed(query@).len() == 0 ==> out@ == ranked_for(
            strs_view(workspaces@),
            strs_view(haystacks@),
            current@,
            Seq::<char>::empty(),
            limit,
        ),
{
    let ghost wss = strs_view(workspaces@);
    let ghost hays = strs_view(haystacks@);
    let q = to_lowercase(trim_str(query));
    let ghost ql = q@;
    proof {
        if trimmed(query@).len() == 0 {
            assert(ql =~= Seq::<char>::empty());
        }
    }
    let n = workspaces.len();
    let ghost cap: int = limit as int;
    let ghost full = ranked_part(wss, hays, current@, ql, true, n as int) + ranked_part(
        wss,
        hays,
        current@,
        ql,
        false,
        n as int,
    );
    let mut out: Vec<usize> = Vec::new();
    if limit == 0 {
        proof {
            assert(full.take(0) =~= Seq::<usize>::empty());
            if full.len() == 0 {
                assert(full =~= Seq::<usize>::empty());
            }
        }
        return out;
    }
    let mut pass: usize = 0;
    while pass < 2
        invariant
            n == workspaces@.len(),
            n == haystacks@.len(),
            wss == strs_view(workspaces@),
            hays == strs_view(haystacks@),
            ql == q@,
            ql == lowercase(trimmed(query@)),
            trimmed(query@).len() == 0 ==> ql == Seq::<char>::empty(),
            cap == limit as int,
            full == ranked_part(wss, hays, current@, ql, true, n as int) + ranked_part(
                wss,
                hays,
                current@,
                ql,
                false,
                n as int,
            ),
            pass <= 2,
            pass == 0 ==> out@.len() == 0,
            pass == 1 ==> out@ == ranked_part(wss, hays, current@, ql, true, n as int),
            pass == 2 ==> out@ == full,
            out@.len() < cap,
        decreases 2 - pass,
    {
        let same = pass == 0;
        let ghost base = out@;
        let mut i: usize = 0;
        while i < n
            invariant
                n == workspaces@.len(),
                n == haystacks@.len(),
                wss == strs_view(workspaces@),
                hays == strs_view(haystacks@),
                ql == q@,
                i <= n,
                out@ == base + ranked_part(wss, hays, current@, ql, same, i as int),
                out@.len() < cap,
                pass < 2,
                ql == lowercase(trimmed(query@)),
                trimmed(query@).len() == 0 ==> ql == Seq::<char>::empty(),
                same == (pass == 0),
                pass == 0 ==> base.len() == 0,
                pass == 1 ==> base == ranked_part(wss, hays, current@, ql, true, n as int),
                cap == limit as int,
                full == ranked_part(wss, hays, current@, ql, true, n as int) + ranked_part(
                    wss,
                    hays,
                    current@,
                    ql,
                    false,
                    n as int,
                ),
            decreases n - i,
        {
            let ws = workspaces[i];
            let hay = haystacks[i];
            proof {
                assert(wss[i as int] == ws@);
                assert(hays[i as int] == hay@);
            }
            let in_ws = paths_equal(ws, current);
            let hit = q.as_str().is_empty() || contains_ci(hay, q.as_str());
            if in_ws == same && hit {
                out.push(i);
                proof {
                    assert(out@ =~= base + ranked_part(wss, hays, current@, ql, same, i + 1));
                }
                if out.len() >= limit {
                    proof {
                        lemma_ranked_prefix(wss, hays, current@, ql, same, i + 1, n as int);
                        let part = ranked_part(wss, hays, current@, ql, same, n as int);
                        let tail_part = ranked_part(wss, hays, current@, ql, false, n as int);
                        assert(out@.len() == cap);
                        if same {
                            assert(base.len() == 0);
                            assert(out@ =~= full.take(cap)) by {
                                assert(forall|k: int| 0 <= k < out@.len() ==> out@[k] == part[k]);
                            }
                        } else {
                            assert(full =~= base + part);
                            assert(out@ =~= full.take(cap)) by {
                                assert(forall|k: int|
                                    0 <= k < out@.len() - base.len() ==> out@[base.len() + k]
                                        == part[k]);
                            }
                        }
                        assert(full.len() >= cap);
                        assert(wss.len() == n);
                        if full.len() == cap {
                            assert(full.take(cap) =~= full);
                        }
                    }
                    return out;
                }
            } else {
                proof {
                    assert(out@ =~= base + ranked_part(wss, hays, current@, ql, same, i + 1));
                }
            }
            i = i + 1;
        }
        proof {
            assert(base + ranked_part(wss, hays, current@, ql, same, n as int) == if pass == 0 {
                ranked_part(wss, hays, current@, ql, true, n as int)
            } else {
                full
            }) by {
                if pass == 0 {
                    assert(base + ranked_part(wss, hays, current@, ql, same, n as int) =~= ranked_part(wss, hays, current@, ql, true, n as int));
                }
            }
        }
        pass = pass + 1;
    }
    proof {
        assert(full.len() < cap);
    }
    out
}

/// Matches in the first `k` entries come first among those in the first `n`.
proof fn lemma_ranked_prefix(
    wss: Seq<Seq<char>>,
    hays: Seq<Seq<char>>,
    current: Seq<char>,
    q: Seq<char>,
    same: bool,
    k: int,
    n: int,
)
    requires
        0 <= k <= n,
    ensures
        ranked_part(wss, hays, current, q, same, k).len() <= ranked_part(
            wss,
            hays,
            current,
            q,
            same,
            n,
        ).len(),
        forall|j: int|
            0 <= j < ranked_part(wss, hays, current, q, same, k).len() ==> ranked_part(
                wss,
                hays,
                current,
                q,
                same,
                k,
            )[j] == #[trigger] ranked_part(wss, hays, current, q, same, n)[j],
    decreases n - k,
{
    if k < n {
        lemma_ranked_prefix(wss, hays, current, q, same, k, n - 1);
    }
}

/// Returns the indices of the matching entries: those in the `current`
/// workspace first, the rest after, each in their order, cut to `limit` (see
/// [`ranked`]).
pub fn rank_hits<T: Hit>(hits: &[T], current: &str, query: &str, limit: usize) -> (out: Vec<
    usize,
>)
    ensures
        out@ == ranked(
            hits@.map_values(|h: T| h.hit_workspace()),
            hits@.map_values(|h: T| h.hit_text()),
            current@,
            query@,
            limit,
        ),
        trimmed(query@).len() == 0 ==> out@ == ranked_for(
            hits@.map_values(|h: T| h.hit_workspace()),
            hits@.map_values(|h: T| h.hit_text()),
            current@,
            Seq::<char>::empty(),
            limit,
        ),
{
    let ghost wss = hits@.map_values(|h: T| h.hit_workspace());
    let ghost hays = hits@.map_values(|h: T| h.hit_text());
    let mut workspaces: Vec<&str> = Vec::new();
    let mut haystacks: Vec<&str> = Vec::new();
    let mut i: usize = 0;
    while i < hits.len()
        invariant
            i <= hits@.len(),
            wss == hits@.map_values(|h: T| h.hit_workspace()),
            hays == hits@.map_values(|h: T| h.hit_text()),
            strs_view(workspaces@) == wss.take(i as int),
            strs_view(haystacks@) == hays.take(i as int),
        decreases hits@.len() - i,
    {
        let w = hits[i].workspace();
        let t = hits[i].haystack();
        workspaces.push(w);
        haystacks.push(t);
        proof {
            assert(wss.take(i + 1) =~= wss.take(i as int).push(w@));
            assert(hays.take(i + 1) =~= hays.take(i as int).push(t@));
            assert(strs_view(workspaces@) =~= wss.take(i + 1));
            assert(strs_view(haystacks@) =~= hays.take(i + 1));
        }
        i = i + 1;
    }
    proof {
        assert(wss.take(i as int) =~= wss);
        assert(hays.take(i as int) =~= hays);
    }
    rank_entries(&workspaces, &haystacks, current, query, limit)
}

/// With an empty keyword every entry matches: the two parts together hold
/// each of the first `n` indices exactly once.
proof fn lemma_empty_keyword_parts(
    wss: Seq<Seq<char>>,
    hays: Seq<Seq<char>>,
    current: Seq<char>,
    n: int,
)
    requires
        0 <= n,
    ensures
        ranked_part(wss, hays, current, seq![], true, n).len() + ranked_part(
            wss,
            hays,
            current,
            seq![],
            false,
            n,
        ).len() == n,
        forall|i: usize|
            i < n ==> #[trigger] (ranked_part(wss, hays, current, seq![], true, n) + ranked_part(
                wss,
                hays,
                current,
                seq![],
                false,
                n,
            )).contains(i),
    decreases n,
{
    if n > 0 {
        lemma_empty_keyword_parts(wss, hays, current, n - 1);
        let a0 = ranked_part(wss, hays, current, seq![], true, n - 1);
        let b0 = ranked_part(wss, hays, current, seq![], false, n - 1);
        let a = ranked_part(wss, hays, current, seq![], true, n);
        let b = ranked_part(wss, hays, current, seq![], false, n);
        assert(hit_matches(hays[n - 1], seq![]));
        assert forall|i: usize| i < n implies #[trigger] (a + b).contains(i) by {
            if i == n - 1 {
                if same_workspace(wss[n - 1], current) {
                    assert(a == a0.push((n - 1) as usize));
                    assert((a + b)[a.len() - 1] == (n - 1) as usize);
                } else {
                    assert(b == b0.push((n - 1) as usize));
                    assert((a + b)[a.len() + b.len() - 1] == (n - 1) as usize);
                }
            } else {
                assert((a0 + b0).contains(i));
                let k = choose|k: int| 0 <= k < (a0 + b0).len() && (a0 + b0)[k] == i;
                if same_workspace(wss[n - 1], current) {
                    assert(a == a0.push((n - 1) as usize));
                    if k < a0.len() {
                        assert((a + b)[k] == i);
                    } else {
                        assert((a + b)[k + 1] == i);
                    }
                } else {
                    assert(b == b0.push((n - 1) as usize));
                    assert((a + b)[k] == i);
                }
            }
        }
    }
}

/// An empty keyword returns everything: every index is ranked (in the current
/// workspace first), and only the limit cuts the list.
pub proof fn law_empty_keyword_ranks_all(
    wss: Seq<Seq<char>>,
    hays: Seq<Seq<char>>,
    current: Seq<char>,
    limit: usize,
)
    ensures
        ranked_for(wss, hays, current, seq![], limit).len() == if wss.len() <= limit {
            wss.len() as int
        } else {
            limit as int
        },
        wss.len() <= limit ==> forall|i: usize|
            i < wss.len() ==> #[trigger] ranked_for(wss, hays, current, seq![], limit).contains(i),
{
    lemma_empty_keyword_parts(wss, hays, current, wss.len() as int);
}

} // verus!
