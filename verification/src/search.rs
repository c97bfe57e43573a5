//! A whole scan: which addresses are prodded, and what comes of it.

use vstd::prelude::*;

use crate::address::{law_run_of_v4_addresses, law_run_of_v6_addresses, IpAddress, Targets};
use crate::contact::{
    is_reachable_printer, law_prod_finds_printers, prod_messages, prod_outcome, ProdReplies,
    ProdStepView,
};
use crate::network::{
    is_v4_netmask, is_v6_netmask, law_netmasks, law_v4_netmask_has_one_prefix, v4_mask,
    v4_prefix_of, v6_mask,
};
use crate::scan::{
    gateway_of, law_every_neighbor_is_listed, law_list_of_neighbors,
    law_neighbors_of_an_interface, law_plan_covers_each_interface,
    law_v4_network_is_visited_whole, law_v6_network_is_visited_whole, neighbors, neighbors_view,
    network_scan, number_found, plan_view, planned, v4_targets, v6_targets, Interface,
    InterfaceAddr, InterfaceScan, InterfaceScanView, InterfaceV4, InterfaceV6, Neighbor,
    NeighborView,
};

verus! {

/// The addresses of the neighboring networks whose gateways answered, in the
/// order of the networks.
pub open spec fn reached_targets(neighbors: Seq<NeighborView>, answered: Seq<bool>) -> Seq<
    IpAddress,
>
    decreases neighbors.len(),
{
    if neighbors.len() == 0 || answered.len() == 0 {
        Seq::empty()
    } else {
        let rest = reached_targets(neighbors.drop_first(), answered.drop_first());
        if answered[0] {
            neighbors[0].targets + rest
        } else {
            rest
        }
    }
}

/// The addresses to visit on behalf of an interface.
pub open spec fn scan_targets(scan: InterfaceScanView, answered: Seq<bool>) -> Seq<IpAddress> {
    match scan {
        InterfaceScanView::Network { targets, neighbors } => targets + reached_targets(
            neighbors,
            answered,
        ),
        _ => Seq::empty(),
    }
}

/// The addresses to visit on behalf of all interfaces, in their order.
pub open spec fn visited(plan: Seq<InterfaceScanView>, answered: Seq<Seq<bool>>) -> Seq<IpAddress>
    decreases plan.len(),
{
    if plan.len() == 0 {
        Seq::empty()
    } else {
        scan_targets(plan[0], answered[0]) + visited(plan.drop_first(), answered.drop_first())
    }
}

/// For each interface, which of the gateways of its neighboring networks
/// answered.
pub open spec fn answers_view(answered: Seq<Vec<bool>>) -> Seq<Seq<bool>> {
    answered.map_values(|answers: Vec<bool>| answers@)
}

/// All addresses of some runs, in their order.
pub open spec fn all_targets(runs: Seq<Targets>) -> Seq<IpAddress>
    decreases runs.len(),
{
    if runs.len() == 0 {
        Seq::empty()
    } else {
        runs[0]@ + all_targets(runs.drop_first())
    }
}

/// One more run adds its addresses at the end.
proof fn lemma_one_more_run(runs: Seq<Targets>, run: Targets)
    ensures
        all_targets(runs.push(run)) == all_targets(runs) + run@,
    decreases runs.len(),
{
    if runs.len() == 0 {
        assert(all_targets(runs.push(run).drop_first()) == Seq::<IpAddress>::empty());
    } else {
        assert(runs.push(run).drop_first() == runs.drop_first().push(run));
        lemma_one_more_run(runs.drop_first(), run);
    }
}

/// The addresses that are still to be visited, in the order in which they are.
#[derive(Debug)]
pub struct Itinerary {
    current: Targets,
    later: Vec<Targets>,
}

impl View for Itinerary {
    type V = Seq<IpAddress>;

    closed spec fn view(&self) -> Seq<IpAddress> {
        self.current@ + all_targets(self.later@)
    }
}

impl Itinerary {
    /// No address.
    pub fn new() -> (stops: Itinerary)
        ensures
            stops@ == Seq::<IpAddress>::empty(),
    {
        Itinerary { current: Targets::new(true, 1, 0, None), later: Vec::new() }
    }

    /// Adds the addresses of a run at the end.
    pub fn append(&mut self, run: Targets)
        ensures
            final(self)@ == old(self)@ + run@,
    {
        proof {
            lemma_one_more_run(self.later@, run);
        }
        self.later.push(run);
    }

    /// Adds the addresses to visit on behalf of an interface at the end.
    pub fn append_scan(&mut self, scan: InterfaceScan, answered: &Vec<bool>)
        ensures
            final(self)@ == old(self)@ + scan_targets(scan@, answered@),
    {
        if let InterfaceScan::Network(network) = scan {
            let mut neighbors: Vec<Neighbor> = network.neighbors;
            self.append(network.targets);
            let mut i: usize = 0;
            assert(answered@.skip(0) == answered@);
            while i < answered.len() && neighbors.len() > 0
                invariant
                    i <= answered@.len(),
                    self@ + reached_targets(neighbors_view(neighbors@), answered@.skip(i as int))
                        == old(self)@ + scan_targets(scan@, answered@),
                decreases answered@.len() - i,
            {
                let ghost before = neighbors_view(neighbors@);
                let ghost answers = answered@.skip(i as int);
                let neighbor: Neighbor = neighbors.remove(0);
                assert(neighbors_view(neighbors@) == before.drop_first());
                assert(answered@.skip(i + 1) == answers.drop_first());
                if let Some(run) = neighbor.reached(answered[i]) {
                    self.append(run);
                }
                i = i + 1;
            }
        }
    }

    /// Takes the first address that is left.
    pub fn next_target(&mut self) -> (target: Option<IpAddress>)
        ensures
            target == (if old(self)@.len() > 0 {
                Some(old(self)@[0])
            } else {
                None
            }),
            final(self)@ == (if old(self)@.len() > 0 {
                old(self)@.drop_first()
            } else {
                old(self)@
            }),
    {
        loop
            invariant
                self@ == old(self)@,
            decreases self.later@.len(),
        {
            let target: Option<IpAddress> = self.current.next_target();
            if target.is_some() {
                return target;
            }
            if self.later.len() == 0 {
                return None;
            }
            self.current = self.later.remove(0);
        }
    }
}

/// Puts together the addresses to visit, given which gateways of the neighboring
/// networks of each interface answered.
pub fn itinerary(plan: Vec<InterfaceScan>, answered: &Vec<Vec<bool>>) -> (stops: Itinerary)
    requires
        plan@.len() == answered@.len(),
    ensures
        stops@ == visited(plan_view(plan@), answers_view(answered@)),
{
    let mut stops: Itinerary = Itinerary::new();
    let ghost all = visited(plan_view(plan@), answers_view(answered@));
    let mut plan: Vec<InterfaceScan> = plan;
    let mut i: usize = 0;
    assert(answers_view(answered@).skip(0) == answers_view(answered@));
    while i < answered.len()
        invariant
            i <= answered@.len(),
            plan@.len() == answered@.len() - i,
            stops@ + visited(plan_view(plan@), answers_view(answered@).skip(i as int)) == all,
        decreases answered@.len() - i,
    {
        let ghost before = plan_view(plan@);
        let ghost answers = answers_view(answered@).skip(i as int);
        let scan: InterfaceScan = plan.remove(0);
        assert(plan_view(plan@) == before.drop_first());
        assert(answers_view(answered@).skip(i + 1) == answers.drop_first());
        stops.append_scan(scan, &answered[i]);
        i = i + 1;
    }
    stops
}

/// An address is reached through neighboring networks exactly where it belongs
/// to one whose gateway answered.
pub proof fn law_reached_networks_are_visited(
    neighbors: Seq<NeighborView>,
    answered: Seq<bool>,
    ip: IpAddress,
)
    ensures
        reached_targets(neighbors, answered).contains(ip) <==> exists|i: int|
            0 <= i < neighbors.len() && i < answered.len() && answered[i] && (
            #[trigger] neighbors[i]).targets.contains(ip),
    decreases neighbors.len(),
{
    if neighbors.len() > 0 && answered.len() > 0 {
        let later = neighbors.drop_first();
        let answers = answered.drop_first();
        let rest = reached_targets(later, answers);
        law_reached_networks_are_visited(later, answers, ip);
        lemma_contains_in_sum(neighbors[0].targets, rest, ip);
        if exists|i: int|
            0 <= i < neighbors.len() && i < answered.len() && answered[i] && (
            #[trigger] neighbors[i]).targets.contains(ip) {
            let i = choose|i: int|
                0 <= i < neighbors.len() && i < answered.len() && answered[i] && (
                #[trigger] neighbors[i]).targets.contains(ip);
            if i > 0 {
                assert(later[i - 1] == neighbors[i]);
            }
        }
    }
}

/// What is in one of two sequences is in their concatenation, and nothing else.
proof fn lemma_contains_in_sum<A>(a: Seq<A>, b: Seq<A>, x: A)
    ensures
        (a + b).contains(x) <==> a.contains(x) || b.contains(x),
{
    if a.contains(x) {
        let i = choose|i: int| 0 <= i < a.len() && a[i] == x;
        assert((a + b)[i] == x);
    }
    if b.contains(x) {
        let i = choose|i: int| 0 <= i < b.len() && b[i] == x;
        assert((a + b)[a.len() + i] == x);
    }
}

/// An address is visited exactly where it is to be visited on behalf of one of
/// the interfaces.
pub proof fn law_every_interface_is_visited(
    plan: Seq<InterfaceScanView>,
    answered: Seq<Seq<bool>>,
    ip: IpAddress,
)
    requires
        plan.len() == answered.len(),
    ensures
        visited(plan, answered).contains(ip) <==> exists|i: int|
            0 <= i < plan.len() && scan_targets(#[trigger] plan[i], answered[i]).contains(ip),
    decreases plan.len(),
{
    if plan.len() > 0 {
        let later = plan.drop_first();
        let answers = answered.drop_first();
        let rest = visited(later, answers);
        law_every_interface_is_visited(later, answers, ip);
        lemma_contains_in_sum(scan_targets(plan[0], answered[0]), rest, ip);
        if exists|i: int|
            0 <= i < plan.len() && scan_targets(#[trigger] plan[i], answered[i]).contains(ip) {
            let i = choose|i: int|
                0 <= i < plan.len() && scan_targets(#[trigger] plan[i], answered[i]).contains(ip);
            if i > 0 {
                assert(later[i - 1] == plan[i]);
            }
        }
    }
}

/// In a cluster search every address of the other networks of the cluster is
/// visited, where the gateway of its network answers.
pub proof fn law_cluster_is_visited_whole(ip: u32, prefix: u8, answered: Seq<bool>, other: u32)
    requires
        24 <= prefix <= 32,
        other & v4_mask((prefix - 8) as u8) == ip & v4_mask((prefix - 8) as u8),
        other & v4_mask(prefix) != ip & v4_mask(prefix),
        answered.len() == neighbors(ip, prefix).len(),
        forall|i: int|
            0 <= i < answered.len() && (#[trigger] neighbors(ip, prefix)[i]).gateway == gateway_of(
                other,
                prefix,
            ) ==> answered[i],
    ensures
        reached_targets(neighbors(ip, prefix), answered).contains(IpAddress::V4(other)),
{
    law_every_neighbor_is_listed(ip, prefix, other);
    law_reached_networks_are_visited(neighbors(ip, prefix), answered, IpAddress::V4(other));
}

/// Whether a printer is found at each of some addresses, given what the addresses
/// are written as and what they reply.
pub open spec fn outcomes(addrs: Seq<Seq<char>>, replies: Seq<ProdReplies>) -> Seq<bool> {
    Seq::new(
        addrs.len(),
        |i: int| prod_outcome(addrs[i], replies[i]) == ProdStepView::Done(true),
    )
}

/// What is passed on while some addresses are prodded.
pub open spec fn messages(addrs: Seq<Seq<char>>, replies: Seq<ProdReplies>) -> Seq<Seq<char>>
    decreases addrs.len(),
{
    if addrs.len() == 0 {
        Seq::empty()
    } else {
        messages(addrs.drop_last(), replies.drop_last()) + prod_messages(
            addrs.last(),
            replies.last(),
        )
    }
}

/// What is passed on is the addresses of the printers that were found, and there
/// are as many of them as there are outcomes that tell of a printer.
proof fn lemma_messages_are_outcomes(addrs: Seq<Seq<char>>, replies: Seq<ProdReplies>)
    requires
        addrs.len() == replies.len(),
    ensures
        number_found(outcomes(addrs, replies)) == messages(addrs, replies).len(),
    decreases addrs.len(),
{
    reveal_with_fuel(Seq::filter, 2);
    let all = outcomes(addrs, replies);
    if addrs.len() > 0 {
        lemma_messages_are_outcomes(addrs.drop_last(), replies.drop_last());
        law_prod_finds_printers(addrs.last(), replies.last());
        assert(all.drop_last() == outcomes(addrs.drop_last(), replies.drop_last()));
    }
}

/// The number of `true`s among some results does not depend on their order.
proof fn lemma_number_found_is_a_count(results: Seq<bool>)
    ensures
        number_found(results) == results.to_multiset().count(true),
    decreases results.len(),
{
    broadcast use vstd::seq_lib::group_to_multiset_ensures;

    reveal_with_fuel(Seq::filter, 2);
    if results.len() > 0 {
        lemma_number_found_is_a_count(results.drop_last());
        assert(results.drop_last().push(results.last()) == results);
    }
}

/// The addresses that a scan visits, as they are written.
pub open spec fn scan_addrs(
    interfaces: Seq<Interface>,
    cluster_search: bool,
    answered: Seq<Seq<bool>>,
    written: spec_fn(IpAddress) -> Seq<char>,
) -> Seq<Seq<char>> {
    visited(planned(interfaces, cluster_search), answered).map_values(written)
}

/// The count of a scan is the number of addresses that it passed on, whatever the
/// interfaces, the gateways and the addresses reply, and in whatever order the
/// results come. It is zero where no address could be passed on.
pub proof fn law_count_is_what_was_passed_on(
    interfaces: Seq<Interface>,
    cluster_search: bool,
    answered: Seq<Seq<bool>>,
    written: spec_fn(IpAddress) -> Seq<char>,
    replies: Seq<ProdReplies>,
    results: Seq<bool>,
)
    requires
        replies.len() == scan_addrs(interfaces, cluster_search, answered, written).len(),
        results.to_multiset() == outcomes(
            scan_addrs(interfaces, cluster_search, answered, written),
            replies,
        ).to_multiset(),
    ensures
        number_found(results) == messages(
            scan_addrs(interfaces, cluster_search, answered, written),
            replies,
        ).len(),
        (forall|i: int| 0 <= i < replies.len() ==> !(#[trigger] replies[i]).passed_on)
            ==> number_found(results) == 0,
{
    let addrs = scan_addrs(interfaces, cluster_search, answered, written);
    lemma_messages_are_outcomes(addrs, replies);
    lemma_number_found_is_a_count(results);
    lemma_number_found_is_a_count(outcomes(addrs, replies));
    if forall|i: int| 0 <= i < replies.len() ==> !(#[trigger] replies[i]).passed_on {
        if messages(addrs, replies).len() > 0 {
            law_printers_are_passed_on(addrs, replies, messages(addrs, replies)[0]);
        }
    }
}

/// An address is passed on exactly where it is one of those prodded and there is
/// a printer that can be passed on.
pub proof fn law_printers_are_passed_on(
    addrs: Seq<Seq<char>>,
    replies: Seq<ProdReplies>,
    addr: Seq<char>,
)
    requires
        addrs.len() == replies.len(),
    ensures
        messages(addrs, replies).contains(addr) <==> exists|i: int|
            0 <= i < addrs.len() && addrs[i] == addr && is_reachable_printer(#[trigger] replies[i]),
    decreases addrs.len(),
{
    if addrs.len() > 0 {
        let fewer = addrs.drop_last();
        let before = replies.drop_last();
        let last = prod_messages(addrs.last(), replies.last());
        law_printers_are_passed_on(fewer, before, addr);
        law_prod_finds_printers(addrs.last(), replies.last());
        lemma_contains_in_sum(messages(fewer, before), last, addr);
        if last.len() > 0 {
            assert(last[0] == addrs.last());
        }
        if exists|i: int|
            0 <= i < addrs.len() && addrs[i] == addr && is_reachable_printer(
                #[trigger] replies[i],
            ) {
            let i = choose|i: int|
                0 <= i < addrs.len() && addrs[i] == addr && is_reachable_printer(
                    #[trigger] replies[i],
                );
            if i < fewer.len() {
                assert(before[i] == replies[i]);
            }
        }
    }
}

/// An address belongs to the neighboring network with a number exactly where it
/// belongs to the cluster and has that number.
proof fn lemma_neighbor_bits(ip: u32, other: u32, num: u32, shift: u32)
    requires
        shift <= 8,
        num <= 255,
    ensures
        other & (0xffff_ffffu32 << shift) == ((ip & !(0xffu32 << shift)) | (num << shift)) & (
        0xffff_ffffu32 << shift) <==> {
            &&& other & (0xffff_ffffu32 << ((shift + 8) as u32)) == ip & (0xffff_ffffu32 << ((shift
                + 8) as u32))
            &&& (other >> shift) & 0xff == num
        },
        other & (0xffff_ffffu32 << shift) == ip & (0xffff_ffffu32 << shift) <==> {
            &&& other & (0xffff_ffffu32 << ((shift + 8) as u32)) == ip & (0xffff_ffffu32 << ((shift
                + 8) as u32))
            &&& (other >> shift) & 0xff == (ip >> shift) & 0xff
        },
        (other >> shift) & 0xff <= 255,
        (ip >> shift) & 0xff <= 255,
{
    let wide = (shift + 8) as u32;
    assert(shift <= 8 && num <= 255 && wide == shift + 8 ==> (other & (0xffff_ffffu32 << shift) == (
    (ip & !(0xffu32 << shift)) | (num << shift)) & (0xffff_ffffu32 << shift) <==> other & (
    0xffff_ffffu32 << wide) == ip & (0xffff_ffffu32 << wide) && (other >> shift) & 0xff == num))
        by (bit_vector);
    assert(shift <= 8 && wide == shift + 8 ==> (other & (0xffff_ffffu32 << shift) == ip & (
    0xffff_ffffu32 << shift) <==> other & (0xffff_ffffu32 << wide) == ip & (0xffff_ffffu32 << wide)
        && (other >> shift) & 0xff == (ip >> shift) & 0xff)) by (bit_vector);
    assert((other >> shift) & 0xff <= 255) by (bit_vector);
    assert((ip >> shift) & 0xff <= 255) by (bit_vector);
}

/// The addresses of neighboring networks are visited each once, where no two of
/// the networks share one.
proof fn lemma_reached_once(neighbors: Seq<NeighborView>, answered: Seq<bool>)
    requires
        neighbors.len() == answered.len(),
        forall|i: int|
            0 <= i < neighbors.len() ==> (#[trigger] neighbors[i]).targets.no_duplicates(),
        forall|i: int, j: int, ip: IpAddress|
            0 <= i < j < neighbors.len() && #[trigger] neighbors[i].targets.contains(ip)
                ==> !(#[trigger] neighbors[j].targets.contains(ip)),
    ensures
        reached_targets(neighbors, answered).no_duplicates(),
    decreases neighbors.len(),
{
    if neighbors.len() > 0 {
        let later = neighbors.drop_first();
        let answers = answered.drop_first();
        let rest = reached_targets(later, answers);
        let first = neighbors[0].targets;
        assert forall|i: int| 0 <= i < later.len() implies (
        #[trigger] later[i]).targets.no_duplicates() by {
            assert(later[i] == neighbors[i + 1]);
        }
        assert forall|i: int, j: int, ip: IpAddress|
            0 <= i < j < later.len() && #[trigger] later[i].targets.contains(ip) implies !(
        #[trigger] later[j].targets.contains(ip)) by {
            assert(later[i] == neighbors[i + 1]);
            assert(later[j] == neighbors[j + 1]);
            assert(neighbors[i + 1].targets.contains(ip));
        }
        lemma_reached_once(later, answers);
        assert forall|ip: IpAddress| #[trigger] first.contains(ip) implies !rest.contains(ip) by {
            law_reached_networks_are_visited(later, answers, ip);
            if rest.contains(ip) {
                let i = choose|i: int|
                    0 <= i < later.len() && answers[i] && (#[trigger] later[i]).targets.contains(
                        ip,
                    );
                assert(neighbors[0].targets.contains(ip));
                assert(neighbors[i + 1].targets.contains(ip));
            }
        }
        lemma_sum_without_duplicates(first, rest);
    }
}

/// Two sequences without duplicates that share nothing make one without
/// duplicates.
proof fn lemma_sum_without_duplicates(a: Seq<IpAddress>, b: Seq<IpAddress>)
    requires
        a.no_duplicates(),
        b.no_duplicates(),
        forall|ip: IpAddress| #[trigger] a.contains(ip) ==> !b.contains(ip),
    ensures
        (a + b).no_duplicates(),
{
    let all = a + b;
    assert forall|i: int, j: int| 0 <= i < j < all.len() implies all[i] != all[j] by {
        if i < a.len() && j >= a.len() {
            assert(a.contains(a[i]));
            assert(b[j - a.len()] == all[j]);
        }
    }
}

/// The place of the neighboring network that an address belongs to.
proof fn lemma_reached_address(ip: u32, prefix: u8, answered: Seq<bool>, other: u32)
    requires
        24 <= prefix <= 32,
        answered.len() == 255,
    ensures
        ({
            let shift = (32 - prefix) as u32;
            let num = (other >> shift) & 0xff;
            let own = (ip >> shift) & 0xff;
            let cluster = 0xffff_ffffu32 << ((shift + 8) as u32);
            reached_targets(neighbors(ip, prefix), answered).contains(IpAddress::V4(other)) <==> {
                &&& other & cluster == ip & cluster
                &&& num != own
                &&& num < own ==> answered[num as int]
                &&& num > own ==> answered[num - 1]
            }
        }),
        reached_targets(neighbors(ip, prefix), answered).no_duplicates(),
        forall|v6: u128|
            !(#[trigger] reached_targets(neighbors(ip, prefix), answered).contains(
                IpAddress::V6(v6),
            )),
{
    let shift = (32 - prefix) as u32;
    let num = (other >> shift) & 0xff;
    let own = (ip >> shift) & 0xff;
    let all = neighbors(ip, prefix);
    lemma_neighbor_bits(ip, other, 0, shift);
    law_neighbors_of_an_interface(ip, prefix, InterfaceV6 { ip: 0, netmask: 0 }, true);
    assert forall|i: int, address: u32|
        0 <= i < 255 implies #[trigger] all[i].targets.contains(IpAddress::V4(address)) == ({
        &&& address & (0xffff_ffffu32 << ((shift + 8) as u32)) == ip & (0xffff_ffffu32 << ((shift
            + 8) as u32))
        &&& (address >> shift) & 0xff == number_at(own, i)
    }) by {
        law_list_of_neighbors(ip, prefix, number_at(own, i), i, address, 0);
        lemma_neighbor_bits(ip, address, number_at(own, i), shift);
    }
    assert forall|i: int, v6: u128| 0 <= i < 255 implies !(#[trigger] all[i].targets.contains(
        IpAddress::V6(v6),
    )) && all[i].targets.no_duplicates() by {
        law_list_of_neighbors(ip, prefix, number_at(own, i), i, 0, v6);
    }
    law_reached_networks_are_visited(all, answered, IpAddress::V4(other));
    let place = if num < own {
        num as int
    } else {
        num - 1
    };
    if num != own {
        assert(number_at(own, place) == num);
        assert(all[place].targets.contains(IpAddress::V4(other)) == (other & (0xffff_ffffu32 << ((
        shift + 8) as u32)) == ip & (0xffff_ffffu32 << ((shift + 8) as u32))));
    }
    assert forall|v6: u128|
        !(#[trigger] reached_targets(all, answered).contains(IpAddress::V6(v6))) by {
        law_reached_networks_are_visited(all, answered, IpAddress::V6(v6));
    }
    assert forall|i: int| 0 <= i < all.len() implies (#[trigger] all[i]).targets.no_duplicates() by {
        assert(!all[i].targets.contains(IpAddress::V6(0)));
    }
    assert forall|i: int, j: int, address: IpAddress|
        0 <= i < j < all.len() && #[trigger] all[i].targets.contains(address) implies !(
    #[trigger] all[j].targets.contains(address)) by {
        match address {
            IpAddress::V4(number) => {
                assert(all[i].targets.contains(IpAddress::V4(number)));
                assert(number_at(own, i) != number_at(own, j));
            },
            IpAddress::V6(number) => {
                assert(!all[i].targets.contains(IpAddress::V6(number)));
            },
        }
    }
    lemma_reached_once(all, answered);
}

/// The number of the neighboring network at a place.
spec fn number_at(own: u32, place: int) -> u32 {
    if place < own {
        place as u32
    } else {
        (place + 1) as u32
    }
}

/// What is visited on behalf of an IPv4 interface, whether a cluster search was
/// asked for or not: every other address of its own network; and, in a cluster
/// search of a network of at most 256 addresses, every address of the other
/// networks of the cluster whose gateway answered. Nothing else is visited, its own
/// address is not, and no address is visited twice.
pub proof fn law_what_a_v4_interface_visits(
    ip: u32,
    prefix: u8,
    netmask: u32,
    cluster_search: bool,
    answered: Seq<bool>,
    other: u32,
    v6: u128,
)
    requires
        prefix <= 32,
        prefix == 0 ==> netmask == 0,
        prefix > 0 ==> netmask == 0xffff_ffffu32 << ((32 - prefix) as u32),
        cluster_search && prefix >= 24 ==> answered.len() == 255,
    ensures
        ({
            let addr = InterfaceAddr::V4(InterfaceV4 { ip, netmask });
            let visits = scan_targets(network_scan(addr, cluster_search), answered);
            let shift = (32 - prefix) as u32;
            let num = (other >> shift) & 0xff;
            let own = (ip >> shift) & 0xff;
            let cluster = 0xffff_ffffu32 << ((shift + 8) as u32);
            &&& visits.no_duplicates()
            &&& !visits.contains(IpAddress::V6(v6))
            &&& !visits.contains(IpAddress::V4(ip))
            &&& other & netmask == ip & netmask && other != ip ==> visits.contains(
                IpAddress::V4(other),
            )
            &&& other & netmask != ip & netmask && !(cluster_search && prefix >= 24)
                ==> !visits.contains(IpAddress::V4(other))
            &&& other & netmask != ip & netmask && cluster_search && prefix >= 24 ==> (
            visits.contains(IpAddress::V4(other)) <==> {
                &&& other & cluster == ip & cluster
                &&& num < own ==> answered[num as int]
                &&& num > own ==> answered[num - 1]
            })
        }),
{
    let addr = InterfaceAddr::V4(InterfaceV4 { ip, netmask });
    let own_targets = v4_targets(ip, netmask, Some(ip as int));
    assert(netmask == v4_mask(prefix));
    assert(is_v4_netmask(netmask));
    law_v4_netmask_has_one_prefix(prefix);
    law_v4_network_is_visited_whole(ip, prefix, other);
    law_v4_network_is_visited_whole(ip, prefix, ip);
    law_run_of_v4_addresses(ip & netmask, ip | !netmask, Some(ip as int), other);
    if cluster_search && prefix >= 24 {
        let shift = (32 - prefix) as u32;
        let reached = reached_targets(neighbors(ip, prefix), answered);
        lemma_reached_address(ip, prefix, answered, other);
        lemma_reached_address(ip, prefix, answered, ip);
        lemma_neighbor_bits(ip, other, 0, shift);
        lemma_contains_in_sum(own_targets, reached, IpAddress::V4(other));
        lemma_contains_in_sum(own_targets, reached, IpAddress::V4(ip));
        lemma_contains_in_sum(own_targets, reached, IpAddress::V6(v6));
        assert forall|address: IpAddress| #[trigger]
            own_targets.contains(address) implies !reached.contains(address) by {
            if let IpAddress::V4(number) = address {
                law_v4_network_is_visited_whole(ip, prefix, number);
                lemma_reached_address(ip, prefix, answered, number);
                lemma_neighbor_bits(ip, number, 0, shift);
            }
        }
        lemma_sum_without_duplicates(own_targets, reached);
    } else {
        assert(reached_targets(Seq::empty(), answered) == Seq::<IpAddress>::empty());
        assert(own_targets + Seq::<IpAddress>::empty() == own_targets);
    }
}

/// What is visited on behalf of an IPv6 interface: every other address of its own
/// network, each once, and nothing else.
pub proof fn law_what_a_v6_interface_visits(
    ip: u128,
    prefix: u8,
    netmask: u128,
    cluster_search: bool,
    answered: Seq<bool>,
    other: u128,
    v4: u32,
)
    requires
        prefix <= 128,
        prefix == 0 ==> netmask == 0,
        prefix > 0 ==> netmask == 0xffff_ffff_ffff_ffff_ffff_ffff_ffff_ffffu128 << ((128
            - prefix) as u128),
    ensures
        ({
            let addr = InterfaceAddr::V6(InterfaceV6 { ip, netmask });
            let visits = scan_targets(network_scan(addr, cluster_search), answered);
            &&& visits.no_duplicates()
            &&& !visits.contains(IpAddress::V4(v4))
            &&& visits.contains(IpAddress::V6(other)) <==> other & netmask == ip & netmask && other
                != ip
        }),
{
    let own_targets = v6_targets(ip, netmask, Some(ip as int));
    assert(netmask == v6_mask(prefix));
    assert(is_v6_netmask(netmask));
    law_v6_network_is_visited_whole(ip, prefix, other);
    law_run_of_v6_addresses(ip & netmask, ip | !netmask, Some(ip as int), other);
    assert(reached_targets(Seq::empty(), answered) == Seq::<IpAddress>::empty());
    assert(own_targets + Seq::<IpAddress>::empty() == own_targets);
}

/// Nothing is visited on behalf of an interface whose netmask is neither zero nor
/// all ones moved to the left.
pub proof fn law_what_an_unusable_network_visits(
    v4: InterfaceV4,
    v6: InterfaceV6,
    cluster_search: bool,
    answered: Seq<bool>,
)
    ensures
        v4.netmask != 0 && (forall|places: u32|
            places < 32 ==> v4.netmask != #[trigger] (0xffff_ffffu32 << places)) ==> scan_targets(
            network_scan(InterfaceAddr::V4(v4), cluster_search),
            answered,
        ).len() == 0,
        v6.netmask != 0 && (forall|places: u128|
            places < 128 ==> v6.netmask != #[trigger] (
            0xffff_ffff_ffff_ffff_ffff_ffff_ffff_ffffu128 << places)) ==> scan_targets(
            network_scan(InterfaceAddr::V6(v6), cluster_search),
            answered,
        ).len() == 0,
{
    law_netmasks(v4.netmask, v6.netmask);
}

/// Whether the interface at a place is no loopback, and the first of those with
/// its address.
pub open spec fn is_first(interfaces: Seq<Interface>, place: int) -> bool {
    &&& !interfaces[place].loopback
    &&& forall|i: int|
        0 <= i < place && !(#[trigger] interfaces[i]).loopback ==> match (
            interfaces[i].addr,
            interfaces[place].addr,
        ) {
            (InterfaceAddr::V4(a), InterfaceAddr::V4(b)) => a.ip != b.ip,
            (InterfaceAddr::V6(a), InterfaceAddr::V6(b)) => a.ip != b.ip,
            _ => true,
        }
}

/// Nothing is visited on behalf of an interface that is a loopback or not the first
/// with its address.
proof fn lemma_visited_for(
    interfaces: Seq<Interface>,
    place: int,
    cluster_search: bool,
    answered: Seq<bool>,
    ip: IpAddress,
)
    requires
        0 <= place < interfaces.len(),
    ensures
        scan_targets(planned(interfaces, cluster_search)[place], answered).contains(ip) <==> {
            &&& is_first(interfaces, place)
            &&& scan_targets(
                network_scan(interfaces[place].addr, cluster_search),
                answered,
            ).contains(ip)
        },
{
    law_plan_covers_each_interface(interfaces, place, cluster_search);
}

/// A scan visits what is visited on behalf of each interface that is no loopback
/// and the first with its address, and nothing else.
pub proof fn law_what_a_scan_visits(
    interfaces: Seq<Interface>,
    cluster_search: bool,
    answered: Seq<Seq<bool>>,
    ip: IpAddress,
)
    requires
        interfaces.len() == answered.len(),
    ensures
        visited(planned(interfaces, cluster_search), answered).contains(ip) <==> exists|place: int|
            0 <= place < interfaces.len() && #[trigger] is_first(interfaces, place) && scan_targets(
                network_scan(interfaces[place].addr, cluster_search),
                answered[place],
            ).contains(ip),
{
    let plan = planned(interfaces, cluster_search);
    law_every_interface_is_visited(plan, answered, ip);
    if visited(plan, answered).contains(ip) {
        let place = choose|place: int|
            0 <= place < plan.len() && scan_targets(
                #[trigger] plan[place],
                answered[place],
            ).contains(ip);
        lemma_visited_for(interfaces, place, cluster_search, answered[place], ip);
        assert(is_first(interfaces, place));
    }
    if exists|place: int|
        0 <= place < interfaces.len() && #[trigger] is_first(interfaces, place) && scan_targets(
            network_scan(interfaces[place].addr, cluster_search),
            answered[place],
        ).contains(ip) {
        let place = choose|place: int|
            0 <= place < interfaces.len() && #[trigger] is_first(interfaces, place)
                && scan_targets(
                network_scan(interfaces[place].addr, cluster_search),
                answered[place],
            ).contains(ip);
        lemma_visited_for(interfaces, place, cluster_search, answered[place], ip);
        assert(scan_targets(plan[place], answered[place]).contains(ip));
    }
}

/// Every other address of the own network of an interface is visited, whether a
/// cluster search was asked for or not, unless the interface is a loopback or not
/// the first with its address.
pub proof fn law_own_networks_are_visited(
    interfaces: Seq<Interface>,
    cluster_search: bool,
    answered: Seq<Seq<bool>>,
    place: int,
    v4: u32,
    v6: u128,
)
    requires
        interfaces.len() == answered.len(),
        0 <= place < interfaces.len(),
        !interfaces[place].loopback,
        forall|i: int|
            0 <= i < place && !(#[trigger] interfaces[i]).loopback ==> match (
                interfaces[i].addr,
                interfaces[place].addr,
            ) {
                (InterfaceAddr::V4(a), InterfaceAddr::V4(b)) => a.ip != b.ip,
                (InterfaceAddr::V6(a), InterfaceAddr::V6(b)) => a.ip != b.ip,
                _ => true,
            },
    ensures
        match interfaces[place].addr {
            InterfaceAddr::V4(addr) => ({
                &&& addr.netmask == 0 || exists|places: u32|
                    places < 32 && addr.netmask == #[trigger] (0xffff_ffffu32 << places)
                &&& v4 != addr.ip
                &&& v4 & addr.netmask == addr.ip & addr.netmask
            }) ==> visited(planned(interfaces, cluster_search), answered).contains(
                IpAddress::V4(v4),
            ),
            InterfaceAddr::V6(addr) => ({
                &&& addr.netmask == 0 || exists|places: u128|
                    places < 128 && addr.netmask == #[trigger] (
                    0xffff_ffff_ffff_ffff_ffff_ffff_ffff_ffffu128 << places)
                &&& v6 != addr.ip
                &&& v6 & addr.netmask == addr.ip & addr.netmask
            }) ==> visited(planned(interfaces, cluster_search), answered).contains(
                IpAddress::V6(v6),
            ),
        },
{
    match interfaces[place].addr {
        InterfaceAddr::V4(addr) => {
            let ip = IpAddress::V4(v4);
            assert(is_first(interfaces, place));
            law_what_a_scan_visits(interfaces, cluster_search, answered, ip);
            law_netmasks(addr.netmask, 0);
            if is_v4_netmask(addr.netmask) && v4 != addr.ip && v4 & addr.netmask == addr.ip
                & addr.netmask {
                let prefix = v4_prefix_of(addr.netmask);
                let targets = v4_targets(addr.ip, addr.netmask, Some(addr.ip as int));
                law_v4_network_is_visited_whole(addr.ip, prefix, v4);
                lemma_own_targets_come_first(
                    interfaces[place].addr,
                    cluster_search,
                    answered[place],
                    ip,
                );
            }
        },
        InterfaceAddr::V6(addr) => {
            let ip = IpAddress::V6(v6);
            assert(is_first(interfaces, place));
            law_what_a_scan_visits(interfaces, cluster_search, answered, ip);
            law_netmasks(0, addr.netmask);
            if is_v6_netmask(addr.netmask) && v6 != addr.ip && v6 & addr.netmask == addr.ip
                & addr.netmask {
                let prefix = choose|prefix: u8|
                    prefix <= 128 && addr.netmask == #[trigger] v6_mask(prefix);
                law_v6_network_is_visited_whole(addr.ip, prefix, v6);
                lemma_own_targets_come_first(
                    interfaces[place].addr,
                    cluster_search,
                    answered[place],
                    ip,
                );
            }
        },
    }
}

/// What is to be visited in the own network is visited.
proof fn lemma_own_targets_come_first(
    addr: InterfaceAddr,
    cluster_search: bool,
    answered: Seq<bool>,
    ip: IpAddress,
)
    ensures
        network_scan(addr, cluster_search) matches InterfaceScanView::Network { targets, .. }
            ==> targets.contains(ip) ==> scan_targets(
            network_scan(addr, cluster_search),
            answered,
        ).contains(ip),
{
    if let InterfaceScanView::Network { targets, neighbors } = network_scan(addr, cluster_search) {
        lemma_contains_in_sum(targets, reached_targets(neighbors, answered), ip);
    }
}

/// The view of answers holds each of them in its place.
pub proof fn law_view_of_answers(answered: Seq<Vec<bool>>)
    ensures
        answers_view(answered).len() == answered.len(),
        forall|i: int|
            0 <= i < answered.len() ==> #[trigger] answers_view(answered)[i] == answered[i]@,
{
}

/// A plan made of two visits what the first visits and then what the second does,
/// and a plan of one interface visits what is visited on its behalf: its own
/// network first, and nothing on behalf of an interface that is not looked at.
pub proof fn law_visits_follow_the_plan(
    a: Seq<InterfaceScanView>,
    answers_a: Seq<Seq<bool>>,
    b: Seq<InterfaceScanView>,
    answers_b: Seq<Seq<bool>>,
    part: InterfaceScanView,
    answers: Seq<bool>,
)
    requires
        a.len() == answers_a.len(),
        b.len() == answers_b.len(),
    ensures
        visited(Seq::<InterfaceScanView>::empty(), Seq::<Seq<bool>>::empty()) == Seq::<
            IpAddress,
        >::empty(),
        visited(seq![part], seq![answers]) == scan_targets(part, answers),
        visited(a + b, answers_a + answers_b) == visited(a, answers_a) + visited(b, answers_b),
        match part {
            InterfaceScanView::Network { targets, neighbors } => {
                let visits = scan_targets(part, answers);
                &&& visits.len() >= targets.len()
                &&& visits.take(targets.len() as int) == targets
                &&& visits.skip(targets.len() as int) == reached_targets(neighbors, answers)
            },
            _ => scan_targets(part, answers).len() == 0,
        },
    decreases a.len(),
{
    assert(seq![part].drop_first() == Seq::<InterfaceScanView>::empty());
    assert(visited(seq![part].drop_first(), seq![answers].drop_first()).len() == 0);
    assert(visited(seq![part], seq![answers]) == scan_targets(part, answers));
    if a.len() == 0 {
        assert(a + b == b);
        assert(answers_a + answers_b == answers_b);
    } else {
        let later = a.drop_first();
        let rest = answers_a.drop_first();
        law_visits_follow_the_plan(later, rest, b, answers_b, part, answers);
        assert((a + b).drop_first() == later + b);
        assert((answers_a + answers_b).drop_first() == rest + answers_b);
    }
}

/// Neighboring networks are visited in their order: a network whose gateway
/// answered comes before those that follow it, and one whose gateway did not is
/// passed over.
pub proof fn law_neighbors_are_visited_in_order(
    first: NeighborView,
    answered: bool,
    later: Seq<NeighborView>,
    answers: Seq<bool>,
)
    ensures
        reached_targets(Seq::<NeighborView>::empty(), answers) == Seq::<IpAddress>::empty(),
        reached_targets(later, Seq::<bool>::empty()) == Seq::<IpAddress>::empty(),
        answered ==> reached_targets(seq![first] + later, seq![answered] + answers) == first.targets
            + reached_targets(later, answers),
        !answered ==> reached_targets(seq![first] + later, seq![answered] + answers)
            == reached_targets(later, answers),
{
    assert((seq![first] + later).drop_first() == later);
    assert((seq![answered] + answers).drop_first() == answers);
}

} // verus!
