use vstd::prelude::*;
use vstd::string::StringExecFns;

use crate::error::FileCarrierError;
use crate::hierarchy::CarrierFs;

verus! {

/// The distinct non-local node ids among `lines`, in order of first
/// occurrence: the peers known to a carrier, oldest first.
pub open spec fn distinct_peers(local: Seq<char>, lines: Seq<Seq<char>>) -> Seq<Seq<char>>
    decreases lines.len(),
{
    if lines.len() == 0 {
        Seq::empty()
    } else {
        let prefix = distinct_peers(local, lines.drop_last());
        if lines.last() == local || prefix.contains(lines.last()) {
            prefix
        } else {
            prefix.push(lines.last())
        }
    }
}

/// The canonical reaches ledger built from the local node id and the lines
/// read from the ledger file: the local id first, then every distinct
/// non-local line in order of first occurrence.
pub open spec fn canonical_reaches(local: Seq<char>, lines: Seq<Seq<char>>) -> Seq<Seq<char>> {
    seq![local] + distinct_peers(local, lines)
}

/// Membership in a sequence with one element in front distributes over the
/// two parts.
proof fn lemma_cons_contains(x: Seq<char>, s: Seq<Seq<char>>, y: Seq<char>)
    ensures
        (seq![x] + s).contains(y) <==> (y == x || s.contains(y)),
{
    let c = seq![x] + s;
    if c.contains(y) {
        let k = choose|k: int| 0 <= k < c.len() && c[k] == y;
        if k == 0 {
            assert(y == x);
        } else {
            assert(s[k - 1] == y);
            assert(s.contains(y));
        }
    }
    if y == x {
        assert(c[0] == y);
        assert(c.contains(y));
    }
    if s.contains(y) {
        let k = choose|k: int| 0 <= k < s.len() && s[k] == y;
        assert(c[k + 1] == y);
        assert(c.contains(y));
    }
}

/// The peers never include the local node id.
proof fn lemma_distinct_peers_no_local(local: Seq<char>, lines: Seq<Seq<char>>)
    ensures
        !distinct_peers(local, lines).contains(local),
    decreases lines.len(),
{
    if lines.len() == 0 {
    } else {
        lemma_distinct_peers_no_local(local, lines.drop_last());
        let prefix = distinct_peers(local, lines.drop_last());
        if lines.last() == local || prefix.contains(lines.last()) {
        } else {
            let peers = prefix.push(lines.last());
            assert forall|k: int| 0 <= k < peers.len() implies peers[k] != local by {
                if k < prefix.len() {
                    assert(prefix[k] != local) by {
                        assert(!prefix.contains(local));
                    }
                }
            }
        }
    }
}

/// The peers never repeat.
proof fn lemma_distinct_peers_distinct(local: Seq<char>, lines: Seq<Seq<char>>)
    ensures
        forall|i: int, j: int|
            0 <= i < j < distinct_peers(local, lines).len() ==> distinct_peers(local, lines)[i]
                != distinct_peers(local, lines)[j],
    decreases lines.len(),
{
    if lines.len() == 0 {
    } else {
        lemma_distinct_peers_distinct(local, lines.drop_last());
        let prefix = distinct_peers(local, lines.drop_last());
        if lines.last() == local || prefix.contains(lines.last()) {
        } else {
            let peers = prefix.push(lines.last());
            assert forall|i: int, j: int| 0 <= i < j < peers.len() implies peers[i] != peers[j] by {
                if j == peers.len() - 1 {
                    assert(peers[i] == prefix[i]);
                    assert(prefix[i] != lines.last()) by {
                        assert(!prefix.contains(lines.last()));
                    }
                }
            }
        }
    }
}

/// On lines that are already distinct peers (no local id, no repetition) the
/// extraction changes nothing.
proof fn lemma_distinct_peers_fixed(local: Seq<char>, s: Seq<Seq<char>>)
    requires
        !s.contains(local),
        forall|i: int, j: int| 0 <= i < j < s.len() ==> s[i] != s[j],
    ensures
        distinct_peers(local, s) == s,
    decreases s.len(),
{
    if s.len() == 0 {
        assert(distinct_peers(local, s) =~= s);
    } else {
        let sd = s.drop_last();
        assert(!sd.contains(local)) by {
            if sd.contains(local) {
                let k = choose|k: int| 0 <= k < sd.len() && sd[k] == local;
                assert(s[k] == local);
                assert(s.contains(local));
            }
        }
        lemma_distinct_peers_fixed(local, sd);
        assert(s.last() != local) by {
            assert(s[s.len() - 1] == s.last());
            if s.last() == local {
                assert(s.contains(local));
            }
        }
        assert(!sd.contains(s.last())) by {
            if sd.contains(s.last()) {
                let k = choose|k: int| 0 <= k < sd.len() && sd[k] == s.last();
                assert(s[k] == s[s.len() - 1]);
            }
        }
        assert(distinct_peers(local, s) =~= s);
    }
}

/// A leading local id among the lines never changes the extracted peers.
proof fn lemma_distinct_peers_skip_local(local: Seq<char>, s: Seq<Seq<char>>)
    ensures
        distinct_peers(local, seq![local] + s) == distinct_peers(local, s),
    decreases s.len(),
{
    let c = seq![local] + s;
    if s.len() == 0 {
        assert(c.drop_last() =~= Seq::<Seq<char>>::empty());
        assert(distinct_peers(local, c.drop_last()) =~= Seq::<Seq<char>>::empty());
        assert(c.last() == local);
        assert(distinct_peers(local, c) =~= Seq::<Seq<char>>::empty());
        assert(distinct_peers(local, s) =~= Seq::<Seq<char>>::empty());
    } else {
        lemma_distinct_peers_skip_local(local, s.drop_last());
        assert(c.drop_last() =~= seq![local] + s.drop_last());
        assert(c.last() == s.last());
        assert(distinct_peers(local, c) == distinct_peers(local, s));
    }
}

/// LEDGER WELL-FORMEDNESS: in every canonical ledger — so on every carrier
/// after any successful registration — the local node id occupies position 0
/// and no entry repeats.
pub proof fn lemma_canonical_reaches_well_formed(local: Seq<char>, lines: Seq<Seq<char>>)
    ensures
        canonical_reaches(local, lines).len() >= 1,
        canonical_reaches(local, lines)[0] == local,
        forall|i: int, j: int|
            0 <= i < j < canonical_reaches(local, lines).len() ==> canonical_reaches(
                local,
                lines,
            )[i] != canonical_reaches(local, lines)[j],
{
    let peers = distinct_peers(local, lines);
    let canon = canonical_reaches(local, lines);
    lemma_distinct_peers_no_local(local, lines);
    lemma_distinct_peers_distinct(local, lines);
    assert forall|i: int, j: int| 0 <= i < j < canon.len() implies canon[i] != canon[j] by {
        if i == 0 {
            assert(canon[j] == peers[j - 1]);
            assert(peers[j - 1] != local) by {
                assert(!peers.contains(local));
            }
        } else {
            assert(canon[i] == peers[i - 1] && canon[j] == peers[j - 1]);
        }
    }
}

/// REGISTRATION IDEMPOTENCE: rebuilding the canonical ledger from its own
/// lines changes nothing, so two consecutive registrations with no
/// third-party write in between rewrite the same ledger and, position 1
/// being unchanged, return the same peer.
pub proof fn lemma_register_idempotent(local: Seq<char>, lines: Seq<Seq<char>>)
    ensures
        canonical_reaches(local, canonical_reaches(local, lines)) == canonical_reaches(
            local,
            lines,
        ),
{
    let peers = distinct_peers(local, lines);
    let canon = canonical_reaches(local, lines);
    lemma_distinct_peers_no_local(local, lines);
    lemma_distinct_peers_distinct(local, lines);
    lemma_distinct_peers_skip_local(local, peers);
    lemma_distinct_peers_fixed(local, peers);
    assert(distinct_peers(local, canon) == peers);
}

/// Whether some element of `v` has the same characters as `s`.
fn contains_string(v: &Vec<String>, s: &String) -> (r: bool)
    ensures
        r == v.deep_view().contains(s@),
{
    let ghost dv = v.deep_view();
    let mut i: usize = 0;
    while i < v.len()
        invariant
            i <= v.len(),
            dv == v.deep_view(),
            dv.len() == v.len(),
            forall|j: int| 0 <= j < i ==> dv[j] != s@,
        decreases v.len() - i,
    {
        if v[i].eq(s) {
            proof {
                assert(dv[i as int] == s@);
            }
            return true;
        }
        i += 1;
    }
    proof {
        assert(!dv.contains(s@));
    }
    false
}

/// Builds the canonical reaches ledger: the local node id first, then every
/// distinct line that is not the local id, preserving the order of the lines.
pub fn build_canonical_reaches(local_eid: &String, lines: &Vec<String>) -> (r: Vec<String>)
    ensures
        r.deep_view() == canonical_reaches(local_eid@, lines.deep_view()),
{
    let ghost lv = lines.deep_view();
    let mut r: Vec<String> = Vec::new();
    r.push(local_eid.clone());
    proof {
        assert(lv.take(0) =~= Seq::<Seq<char>>::empty());
        assert(r.deep_view() =~= canonical_reaches(local_eid@, lv.take(0)));
    }
    let mut i: usize = 0;
    while i < lines.len()
        invariant
            i <= lines.len(),
            lv == lines.deep_view(),
            lv.len() == lines.len(),
            r.deep_view() == canonical_reaches(local_eid@, lv.take(i as int)),
        decreases lines.len() - i,
    {
        let ghost pre = r.deep_view();
        let ghost prefix = distinct_peers(local_eid@, lv.take(i as int));
        let line = &lines[i];
        proof {
            assert(lv[i as int] == line@);
            assert(lv.take(i as int + 1).drop_last() =~= lv.take(i as int));
            assert(lv.take(i as int + 1).last() == lv[i as int]);
            lemma_cons_contains(local_eid@, prefix, line@);
        }
        if !contains_string(&r, line) {
            r.push(line.clone());
            proof {
                assert(r.deep_view() =~= pre.push(line@));
                assert(pre.push(line@) =~= seq![local_eid@] + prefix.push(line@));
                assert(r.deep_view() =~= canonical_reaches(local_eid@, lv.take(i as int + 1)));
            }
        } else {
            proof {
                assert(r.deep_view() =~= canonical_reaches(local_eid@, lv.take(i as int + 1)));
            }
        }
        i += 1;
    }
    proof {
        assert(lv.take(lv.len() as int) =~= lv);
    }
    r
}

/// The data rate of a contact window; this daemon always grants an unlimited
/// rate, the carrier being a filesystem.
#[derive(Debug, Clone, Copy, PartialEq)]
pub enum ContactDataRate {
    Unlimited,
}

/// One time-bounded contact window, in seconds of Unix time.
#[derive(Debug, Clone, PartialEq)]
pub struct Contact {
    pub start: u64,
    pub end: u64,
    pub data_rate: ContactDataRate,
}

/// The contact directive sent to the node agent: contact `eid` through the
/// carrier's data directory, and learn that every id in `reaches_eid` is
/// reachable through it.
#[derive(Debug, Clone, PartialEq)]
pub struct ContactConfig {
    pub eid: String,
    pub reaches_eid: Vec<String>,
    pub cla_address: String,
    pub contacts: Vec<Contact>,
}

/// What `register_folder` decided.
#[derive(Debug, PartialEq)]
pub enum RegisterAction {
    /// The local node is the only user of the carrier: the ledger was
    /// rewritten, no contact is to be sent and the marker was not touched.
    FirstUser,
    /// A peer was chosen; the caller must send `config` to the node agent
    /// and, only on success, apply `commit_registration`.
    SendContact { peer: String, config: ContactConfig },
}

/// Registers a carrier folder with the local node.
///
/// `fs` mirrors the carrier area of `folder`; `local_eid` is the local
/// node's id, `data_abs_path` the absolute path of the carrier's data
/// directory, `start` the current Unix time and `duration_secs` the length
/// of the granted contact window.
///
/// When the folder is not a carrier, nothing is written.  When the ledger
/// holds no peer, the ledger is rewritten in canonical form and the outcome
/// is `FirstUser`.  Otherwise the earliest known peer is chosen and a
/// contact directive is handed back; nothing is written until
/// `commit_registration` confirms the send.
pub fn register_folder(
    fs: &mut CarrierFs,
    folder: &String,
    local_eid: &String,
    data_abs_path: &String,
    start: u64,
    duration_secs: u64,
) -> (r: Result<RegisterAction, FileCarrierError>)
    requires
        start + duration_secs <= u64::MAX,
    ensures
        !old(fs).is_carrier() ==> {
            &&& (r matches Err(FileCarrierError::NotAFileCarrier(f)) && f@ == folder@)
            &&& *final(fs) == *old(fs)
        },
        old(fs).is_carrier() && distinct_peers(local_eid@, old(fs).reaches_lines()).len() == 0
            ==> {
            &&& r matches Ok(RegisterAction::FirstUser)
            &&& final(fs).reaches is Some
            &&& final(fs).reaches_lines() == canonical_reaches(
                local_eid@,
                old(fs).reaches_lines(),
            )
            &&& final(fs).connected == old(fs).connected
            &&& final(fs).root_is_dir == old(fs).root_is_dir
            &&& final(fs).data_is_dir == old(fs).data_is_dir
            &&& final(fs).readme_present == old(fs).readme_present
        },
        old(fs).is_carrier() && distinct_peers(local_eid@, old(fs).reaches_lines()).len() > 0
            ==> {
            &&& *final(fs) == *old(fs)
            &&& (r matches Ok(RegisterAction::SendContact { peer, config }) && {
                let canonical = canonical_reaches(local_eid@, old(fs).reaches_lines());
                &&& peer@ == canonical[1]
                &&& config.eid@ == canonical[1]
                &&& config.reaches_eid.deep_view() == canonical.skip(1)
                &&& config.cla_address@ == "file:"@ + data_abs_path@
                &&& config.contacts@.len() == 1
                &&& config.contacts@[0].start == start
                &&& config.contacts@[0].end == start + duration_secs
                &&& config.contacts@[0].data_rate is Unlimited
            })
        },
{
    if !(fs.root_is_dir && fs.data_is_dir) {
        return Err(FileCarrierError::NotAFileCarrier(folder.clone()));
    }

    let canonical = match &fs.reaches {
        Some(lines) => build_canonical_reaches(local_eid, lines),
        None => {
            let empty: Vec<String> = Vec::new();
            let r = build_canonical_reaches(local_eid, &empty);
            proof {
                assert(empty.deep_view() =~= old(fs).reaches_lines());
            }
            r
        },
    };
    let ghost canon = canonical_reaches(local_eid@, old(fs).reaches_lines());
    let ghost peers = distinct_peers(local_eid@, old(fs).reaches_lines());
    proof {
        assert(canonical.deep_view() == canon);
        assert(canon.len() == 1 + peers.len());
    }

    if canonical.len() <= 1 {
        fs.reaches = Some(canonical);
        return Ok(RegisterAction::FirstUser);
    }

    let peer = canonical[1].clone();
    proof {
        assert(peer@ == canon[1]);
    }

    let mut reaches_eid: Vec<String> = Vec::new();
    let mut k: usize = 1;
    while k < canonical.len()
        invariant
            1 <= k <= canonical.len(),
            canonical.deep_view() == canon,
            canonical.len() == canon.len(),
            reaches_eid.deep_view() == canon.subrange(1, k as int),
        decreases canonical.len() - k,
    {
        let ghost pre = reaches_eid.deep_view();
        reaches_eid.push(canonical[k].clone());
        proof {
            assert(reaches_eid.deep_view() =~= pre.push(canon[k as int]));
            assert(reaches_eid.deep_view() =~= canon.subrange(1, k as int + 1));
        }
        k += 1;
    }
    proof {
        assert(canon.subrange(1, canon.len() as int) =~= canon.skip(1));
    }

    let mut cla_address = "file:".to_owned();
    cla_address.append(data_abs_path.as_str());

    let mut contacts: Vec<Contact> = Vec::new();
    contacts.push(
        Contact { start, end: start + duration_secs, data_rate: ContactDataRate::Unlimited },
    );

    let config = ContactConfig { eid: peer.clone(), reaches_eid, cla_address, contacts };
    Ok(RegisterAction::SendContact { peer, config })
}

/// Applies the effect of a successfully sent contact directive: writes the
/// chosen peer into the connection marker and rewrites the ledger in
/// canonical form.  To be called only after the node agent accepted the
/// directive that `register_folder` handed back for the same state.
pub fn commit_registration(fs: &mut CarrierFs, local_eid: &String) -> (peer: String)
    requires
        old(fs).is_carrier(),
        distinct_peers(local_eid@, old(fs).reaches_lines()).len() > 0,
    ensures
        peer@ == canonical_reaches(local_eid@, old(fs).reaches_lines())[1],
        final(fs).reaches is Some,
        final(fs).reaches_lines() == canonical_reaches(local_eid@, old(fs).reaches_lines()),
        (final(fs).connected matches Some(c) && c@ == peer@),
        final(fs).root_is_dir == old(fs).root_is_dir,
        final(fs).data_is_dir == old(fs).data_is_dir,
        final(fs).readme_present == old(fs).readme_present,
{
    let canonical = match &fs.reaches {
        Some(lines) => build_canonical_reaches(local_eid, lines),
        None => {
            let empty: Vec<String> = Vec::new();
            let r = build_canonical_reaches(local_eid, &empty);
            proof {
                assert(empty.deep_view() =~= old(fs).reaches_lines());
            }
            r
        },
    };
    let ghost canon = canonical_reaches(local_eid@, old(fs).reaches_lines());
    let ghost peers = distinct_peers(local_eid@, old(fs).reaches_lines());
    proof {
        assert(canonical.deep_view() == canon);
        assert(canon.len() == 1 + peers.len());
    }
    let peer = canonical[1].clone();
    fs.connected = Some(peer.clone());
    fs.reaches = Some(canonical);
    peer
}

} // verus!
