//! The devices that this one shares its clips with.

use vstd::prelude::*;

use crate::number::decimal_text;
use crate::text::same_text;

verus! {

/// A device to share clips with: where it is found, and the secret by which it
/// lets this device in.
pub struct Peer {
    pub name: String,
    pub ip: String,
    pub port: u16,
    pub secret: String,
}

/// What a `Peer` holds.
pub struct PeerView {
    pub name: Seq<char>,
    pub ip: Seq<char>,
    pub port: u16,
    pub secret: Seq<char>,
}

impl View for Peer {
    type V = PeerView;

    open spec fn view(&self) -> PeerView {
        PeerView { name: self.name@, ip: self.ip@, port: self.port, secret: self.secret@ }
    }
}

impl Clone for Peer {
    fn clone(&self) -> (copy: Self)
        ensures
            copy == *self,
    {
        Peer {
            name: self.name.clone(),
            ip: self.ip.clone(),
            port: self.port,
            secret: self.secret.clone(),
        }
    }
}

/// The peers, in the order in which they were added.
pub struct PeerList {
    pub peers: Vec<Peer>,
}

impl View for PeerList {
    type V = Seq<PeerView>;

    open spec fn view(&self) -> Seq<PeerView> {
        self.peers@.map_values(|peer: Peer| peer@)
    }
}

impl Default for PeerList {
    fn default() -> (list: Self)
        ensures
            list@ == Seq::<PeerView>::empty(),
    {
        let list = PeerList { peers: Vec::new() };
        assert(list@ =~= Seq::<PeerView>::empty());
        list
    }
}

/// Whether a peer has another name than `name`.
pub open spec fn not_named(name: Seq<char>) -> spec_fn(PeerView) -> bool {
    |peer: PeerView| peer.name != name
}

/// `list` without the peers called `name`.
pub open spec fn without_peer(list: Seq<PeerView>, name: Seq<char>) -> Seq<PeerView> {
    list.filter(not_named(name))
}

/// `list` with `peer` as the last one, and the only one of its name.
pub open spec fn with_peer(list: Seq<PeerView>, peer: PeerView) -> Seq<PeerView> {
    without_peer(list, peer.name).push(peer)
}

/// `i` is the place of the first peer called `name`.
pub open spec fn first_named_at(list: Seq<PeerView>, name: Seq<char>, i: int) -> bool {
    &&& 0 <= i < list.len()
    &&& list[i].name == name
    &&& forall|j: int| 0 <= j < i ==> (#[trigger] list[j]).name != name
}

/// The first peer called `name`.
pub open spec fn peer_named(list: Seq<PeerView>, name: Seq<char>) -> Option<PeerView> {
    if exists|i: int| #[trigger] first_named_at(list, name, i) {
        Some(list[choose|i: int| #[trigger] first_named_at(list, name, i)])
    } else {
        None
    }
}

/// No two peers have the same name.
pub open spec fn names_differ(list: Seq<PeerView>) -> bool {
    forall|i: int, j: int|
        0 <= i < j < list.len() ==> (#[trigger] list[i]).name != (#[trigger] list[j]).name
}

/// The line that tells of `peer`.
pub open spec fn peer_line(peer: PeerView) -> Seq<char> {
    "  "@ + peer.name + " \u{2014} "@ + peer.ip + ":"@ + crate::number::decimal(peer.port as nat)
}

/// The lines that tell of the peers of `list`.
pub open spec fn peer_lines(list: Seq<PeerView>) -> Seq<Seq<char>> {
    if list.len() == 0 {
        seq!["No peers configured yet. Use 'add-peer' to add one."@]
    } else {
        seq!["Configured peers:"@] + list.map_values(|peer: PeerView| peer_line(peer))
    }
}

/// Leaves the peers called `name` out.
fn retain_others(peer_list: &mut PeerList, name: &str)
    ensures
        final(peer_list)@ == without_peer(old(peer_list)@, name@),
{
    let ghost all = peer_list@;
    let mut kept: Vec<Peer> = Vec::new();
    let ghost mut kept_views: Seq<PeerView> = Seq::empty();
    assert(all.take(0).filter(not_named(name@)) =~= Seq::empty()) by {
        reveal(Seq::filter);
    }
    for i in 0..peer_list.peers.len()
        invariant
            all == peer_list@,
            kept@.map_values(|peer: Peer| peer@) =~= kept_views,
            kept_views == all.take(i as int).filter(not_named(name@)),
    {
        let peer = &peer_list.peers[i];
        proof {
            assert(all[i as int] == peer@);
            assert(all.take(i + 1) =~= all.take(i as int).push(peer@));
            all.take(i as int).lemma_filter_push(peer@, not_named(name@));
        }
        if !same_text(peer.name.as_str(), name) {
            kept.push(peer.clone());
            proof {
                kept_views = kept_views.push(peer@);
            }
        }
    }
    assert(all.take(all.len() as int) =~= all);
    peer_list.peers = kept;
    assert(peer_list@ =~= kept_views);
}

/// Adds a peer, in place of the one that had its name.
pub fn add_peer(peer_list: &mut PeerList, name: &str, ip: &str, port: u16, secret: &str)
    ensures
        final(peer_list)@ == with_peer(
            old(peer_list)@,
            (PeerView { name: name@, ip: ip@, port, secret: secret@ }),
        ),
{
    retain_others(peer_list, name);
    let ghost others = peer_list@;
    let peer = Peer {
        name: name.to_string(),
        ip: ip.to_string(),
        port,
        secret: secret.to_string(),
    };
    let ghost added = peer@;
    peer_list.peers.push(peer);
    assert(peer_list@ =~= others.push(added));
}

/// Removes the peers called `name`. Says whether there was one, so that the
/// list has to be saved.
pub fn remove_peer(peer_list: &mut PeerList, name: &str) -> (removed: bool)
    ensures
        final(peer_list)@ == without_peer(old(peer_list)@, name@),
        removed == (exists|i: int|
            0 <= i < old(peer_list)@.len() && (#[trigger] old(peer_list)@[i]).name == name@),
{
    let ghost all = peer_list@;
    let before = peer_list.peers.len();
    retain_others(peer_list, name);
    proof {
        lemma_removal_shows(all, name@);
    }
    peer_list.peers.len() < before
}

/// Fewer peers are left exactly where one had the name.
proof fn lemma_removal_shows(list: Seq<PeerView>, name: Seq<char>)
    ensures
        without_peer(list, name).len() <= list.len(),
        without_peer(list, name).len() < list.len() <==> exists|i: int|
            0 <= i < list.len() && (#[trigger] list[i]).name == name,
    decreases list.len(),
{
    if list.len() == 0 {
        assert(list.filter(not_named(name)) =~= list) by {
            reveal(Seq::filter);
        }
    } else {
        let front = list.drop_last();
        assert(list =~= front.push(list.last()));
        front.lemma_filter_push(list.last(), not_named(name));
        lemma_removal_shows(front, name);
        if list.last().name == name {
            assert(list[list.len() - 1].name == name);
        }
        if exists|i: int| 0 <= i < front.len() && (#[trigger] front[i]).name == name {
            let i = choose|i: int| 0 <= i < front.len() && (#[trigger] front[i]).name == name;
            assert(list[i].name == name);
        }
        if exists|i: int| 0 <= i < list.len() && (#[trigger] list[i]).name == name {
            let i = choose|i: int| 0 <= i < list.len() && (#[trigger] list[i]).name == name;
            if i < front.len() {
                assert(front[i].name == name);
            }
        }
    }
}

/// The first peer called `name`.
pub fn find_peer(peer_list: &PeerList, name: &str) -> (found: Option<Peer>)
    ensures
        match found {
            Some(peer) => peer_named(peer_list@, name@) == Some(peer@),
            None => peer_named(peer_list@, name@) is None,
        },
{
    let ghost all = peer_list@;
    for i in 0..peer_list.peers.len()
        invariant
            all == peer_list@,
            forall|j: int| 0 <= j < i ==> (#[trigger] all[j]).name != name@,
    {
        let peer = &peer_list.peers[i];
        assert(all[i as int] == peer@);
        if same_text(peer.name.as_str(), name) {
            proof {
                assert(first_named_at(all, name@, i as int));
                let k = choose|k: int| #[trigger] first_named_at(all, name@, k);
                assert(k == i);
            }
            return Some(peer.clone());
        }
    }
    None
}

/// The lines that tell of the peers.
pub fn list_peers_cli(peer_list: &PeerList) -> (lines: Vec<String>)
    ensures
        crate::text::strings(lines@) == peer_lines(peer_list@),
{
    let ghost all = peer_list@;
    let mut lines: Vec<String> = Vec::new();
    if peer_list.peers.len() == 0 {
        lines.push("No peers configured yet. Use 'add-peer' to add one.".to_string());
        assert(crate::text::strings(lines@) =~= peer_lines(all));
        return lines;
    }
    lines.push("Configured peers:".to_string());
    for i in 0..peer_list.peers.len()
        invariant
            all == peer_list@,
            crate::text::strings(lines@) =~= seq!["Configured peers:"@] + all.take(
                i as int,
            ).map_values(|peer: PeerView| peer_line(peer)),
    {
        let ghost before = crate::text::strings(lines@);
        let peer = &peer_list.peers[i];
        assert(all[i as int] == peer@);
        let mut line = "  ".to_string();
        line.append(peer.name.as_str());
        line.append(" \u{2014} ");
        line.append(peer.ip.as_str());
        line.append(":");
        line.append(decimal_text(peer.port as u64).as_str());
        lines.push(line);
        assert(crate::text::strings(lines@) =~= before.push(peer_line(peer@)));
        assert(all.take(i + 1) =~= all.take(i as int).push(peer@));
    }
    assert(all.take(all.len() as int) =~= all);
    lines
}

/// The first peer of a name in a longer list: the one that was there before,
/// or else the new last one, where it has that name.
proof fn lemma_named_in_longer(list: Seq<PeerView>, last: PeerView, name: Seq<char>)
    ensures
        peer_named(list.push(last), name) == (if peer_named(list, name) is Some {
            peer_named(list, name)
        } else if last.name == name {
            Some(last)
        } else {
            None
        }),
{
    let longer = list.push(last);
    assert forall|i: int| #[trigger] first_named_at(longer, name, i) && i < list.len() implies
        first_named_at(list, name, i) by {
        assert(longer[i] == list[i]);
        assert(forall|j: int| 0 <= j < i ==> longer[j] == #[trigger] list[j]);
    }
    if peer_named(list, name) is Some {
        let i = choose|i: int| #[trigger] first_named_at(list, name, i);
        assert(longer[i] == list[i]);
        assert(forall|j: int| 0 <= j < i ==> #[trigger] longer[j] == list[j]);
        assert(first_named_at(longer, name, i));
        let k = choose|k: int| #[trigger] first_named_at(longer, name, k);
        assert(longer[k].name == name && longer[i].name == name);
        assert(k == i);
    } else {
        assert(forall|i: int| !#[trigger] first_named_at(list, name, i));
        lemma_none_named(list, name);
        if last.name == name {
            assert(forall|j: int| 0 <= j < list.len() ==> #[trigger] longer[j] == list[j]);
            assert(first_named_at(longer, name, list.len() as int));
            let k = choose|k: int| #[trigger] first_named_at(longer, name, k);
            assert(longer[k].name == name);
            assert(k == list.len());
        }
    }
}

/// Where no peer is the first of a name, none has it.
proof fn lemma_none_named(list: Seq<PeerView>, name: Seq<char>)
    requires
        peer_named(list, name) is None,
    ensures
        forall|i: int| 0 <= i < list.len() ==> (#[trigger] list[i]).name != name,
{
    assert forall|i: int| 0 <= i < list.len() implies (#[trigger] list[i]).name != name by {
        lemma_not_named_up_to(list, name, i);
    }
}

/// Where no peer is the first of a name, none up to place `i` has it.
proof fn lemma_not_named_up_to(list: Seq<PeerView>, name: Seq<char>, i: int)
    requires
        forall|k: int| !#[trigger] first_named_at(list, name, k),
        0 <= i < list.len(),
    ensures
        forall|j: int| 0 <= j <= i ==> (#[trigger] list[j]).name != name,
    decreases i,
{
    if i > 0 {
        lemma_not_named_up_to(list, name, i - 1);
    }
    assert(!first_named_at(list, name, i));
}

/// A peer that was added is found under its name.
pub proof fn law_added_peer_is_found(list: Seq<PeerView>, peer: PeerView)
    ensures
        peer_named(with_peer(list, peer), peer.name) == Some(peer),
{
    law_removed_peer_is_gone(list, peer.name);
    lemma_named_in_longer(without_peer(list, peer.name), peer, peer.name);
}

/// A peer that was removed is not found any more.
pub proof fn law_removed_peer_is_gone(list: Seq<PeerView>, name: Seq<char>)
    ensures
        peer_named(without_peer(list, name), name) is None,
{
    let left = without_peer(list, name);
    assert forall|i: int| !#[trigger] first_named_at(left, name, i) by {
        if 0 <= i < left.len() {
            list.lemma_filter_pred(not_named(name), i);
        }
    }
}

/// Adding and removing a peer leaves those of other names as they were.
pub proof fn law_other_peers_stay(list: Seq<PeerView>, peer: PeerView, other: Seq<char>)
    requires
        other != peer.name,
    ensures
        peer_named(without_peer(list, peer.name), other) == peer_named(list, other),
        peer_named(with_peer(list, peer), other) == peer_named(list, other),
    decreases list.len(),
{
    if list.len() == 0 {
        assert(without_peer(list, peer.name) =~= list) by {
            reveal(Seq::filter);
        }
    } else {
        let front = list.drop_last();
        assert(list =~= front.push(list.last()));
        front.lemma_filter_push(list.last(), not_named(peer.name));
        law_other_peers_stay(front, peer, other);
        lemma_named_in_longer(front, list.last(), other);
        lemma_named_in_longer(without_peer(front, peer.name), list.last(), other);
    }
    lemma_named_in_longer(without_peer(list, peer.name), peer, other);
}

/// Where no two peers have the same name, adding one and removing one keeps it
/// so.
pub proof fn law_names_stay_apart(list: Seq<PeerView>, peer: PeerView)
    requires
        names_differ(list),
    ensures
        names_differ(without_peer(list, peer.name)),
        names_differ(with_peer(list, peer)),
    decreases list.len(),
{
    let left = without_peer(list, peer.name);
    if list.len() == 0 {
        assert(left =~= list) by {
            reveal(Seq::filter);
        }
    } else {
        let front = list.drop_last();
        let last = list.last();
        assert(list =~= front.push(last));
        front.lemma_filter_push(last, not_named(peer.name));
        assert(forall|i: int| 0 <= i < front.len() ==> #[trigger] front[i] == list[i]);
        law_names_stay_apart(front, peer);
        let front_left = without_peer(front, peer.name);
        assert forall|i: int, j: int| 0 <= i < j < left.len() implies (#[trigger] left[i]).name
            != (#[trigger] left[j]).name by {
            assert(left[i] == front_left[i]);
            if j == front_left.len() {
                assert(front_left.contains(front_left[i]));
                front.lemma_filter_contains_rev(not_named(peer.name), front_left[i]);
                let k = choose|k: int| 0 <= k < front.len() && front[k] == front_left[i];
                assert(list[k].name != list[list.len() - 1].name);
            } else {
                assert(left[j] == front_left[j]);
            }
        }
    }
    let longer = with_peer(list, peer);
    assert forall|i: int, j: int| 0 <= i < j < longer.len() implies (#[trigger] longer[i]).name != (
    #[trigger] longer[j]).name by {
        assert(longer[i] == left[i]);
        list.lemma_filter_pred(not_named(peer.name), i);
        if j < left.len() {
            assert(longer[j] == left[j]);
        }
    }
}

/// A peer and a list of peers are seen whole.
pub proof fn law_peers_are_seen_whole(peer: Peer, list: PeerList, i: int)
    ensures
        peer@.name == peer.name@,
        peer@.ip == peer.ip@,
        peer@.port == peer.port,
        peer@.secret == peer.secret@,
        list@.len() == list.peers@.len(),
        0 <= i < list.peers@.len() ==> list@[i] == list.peers@[i]@,
{
}

/// Removing a name takes out those peers that have it and no others, which stay in
/// their order; an added peer comes last.
pub proof fn law_other_peers_stay_in_order(
    list: Seq<PeerView>,
    last: PeerView,
    name: Seq<char>,
)
    ensures
        without_peer(Seq::empty(), name).len() == 0,
        without_peer(list.push(last), name) == (if last.name == name {
            without_peer(list, name)
        } else {
            without_peer(list, name).push(last)
        }),
        with_peer(list, last) == without_peer(list, last.name).push(last),
{
    list.lemma_filter_push(last, not_named(name));
    assert(Seq::<PeerView>::empty().filter(not_named(name)) =~= Seq::empty()) by {
        reveal(Seq::filter);
    }
}

/// The first peer of a name is found, and none where nobody has it.
pub proof fn law_first_of_a_name_is_found(list: Seq<PeerView>, last: PeerView, name: Seq<char>)
    ensures
        peer_named(Seq::empty(), name) is None,
        peer_named(list, name) matches Some(peer) ==> peer.name == name && list.contains(peer),
        peer_named(list.push(last), name) == (if peer_named(list, name) is Some {
            peer_named(list, name)
        } else if last.name == name {
            Some(last)
        } else {
            None
        }),
{
    lemma_named_in_longer(list, last, name);
    if peer_named(list, name) is Some {
        let i = choose|i: int| #[trigger] first_named_at(list, name, i);
        assert(list[i].name == name);
    }
}

/// Each peer is told of on a line of its own, in order, below a title.
pub proof fn law_each_peer_has_its_line(list: Seq<PeerView>, i: int)
    ensures
        list.len() == 0 ==> peer_lines(list) == seq![
            "No peers configured yet. Use 'add-peer' to add one."@,
        ],
        list.len() > 0 ==> peer_lines(list).len() == list.len() + 1 && peer_lines(list)[0]
            == "Configured peers:"@,
        0 <= i < list.len() ==> peer_lines(list)[i + 1] == "  "@ + list[i].name + " \u{2014} "@
            + list[i].ip + ":"@ + crate::number::decimal(list[i].port as nat),
{
}

} // verus!
