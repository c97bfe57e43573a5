//! IP addresses as numbers, and runs of addresses to visit.

use vstd::prelude::*;

verus! {

/// An IP address, as the number that its bytes make in network order.
#[derive(Clone, Copy, Debug, PartialEq, Eq, Structural)]
pub enum IpAddress {
    V4(u32),
    V6(u128),
}

/// The address with a number.
pub open spec fn address(v4: bool, number: int) -> IpAddress {
    if v4 {
        IpAddress::V4(number as u32)
    } else {
        IpAddress::V6(number as u128)
    }
}

/// The largest number of an address.
pub open spec fn max_number(v4: bool) -> int {
    if v4 {
        u32::MAX as int
    } else {
        u128::MAX as int
    }
}

/// The addresses from one number to another, both included, in ascending order,
/// without the number to skip.
pub open spec fn addresses(v4: bool, from: int, last: int, skip: Option<int>) -> Seq<IpAddress>
    decreases last - from + 1,
{
    if from > last {
        Seq::empty()
    } else if skip == Some(from) {
        addresses(v4, from + 1, last, skip)
    } else {
        seq![address(v4, from)] + addresses(v4, from + 1, last, skip)
    }
}

/// A run of addresses that are still to be visited, in ascending order.
#[derive(Debug)]
pub struct Targets {
    v4: bool,
    /// The number to look at next, if the run is not over.
    next: Option<u128>,
    last: u128,
    skip: Option<u128>,
}

impl View for Targets {
    type V = Seq<IpAddress>;

    closed spec fn view(&self) -> Seq<IpAddress> {
        match self.next {
            Some(next) => addresses(
                self.v4,
                next as int,
                self.last as int,
                optional_number(self.skip),
            ),
            None => Seq::empty(),
        }
    }
}

/// A number that may be missing.
pub open spec fn optional_number(number: Option<u128>) -> Option<int> {
    match number {
        Some(number) => Some(number as int),
        None => None,
    }
}

impl Targets {
    #[verifier::type_invariant]
    spec fn numbers_fit(self) -> bool {
        self.last <= max_number(self.v4)
    }

    /// The addresses from one number to another, both included, without the
    /// number to skip.
    pub fn new(v4: bool, first: u128, last: u128, skip: Option<u128>) -> (targets: Targets)
        requires
            last <= max_number(v4),
        ensures
            targets@ == addresses(v4, first as int, last as int, optional_number(skip)),
    {
        Targets { v4, next: Some(first), last, skip }
    }

    /// Takes the first address that is left.
    pub fn next_target(&mut self) -> (target: Option<IpAddress>)
        ensures
            target == (if old(self)@.len() > 0 {
                Some(old(self)@[0])
            } else {
                None
            }),
            final(self)@ == (if old(self)@.len() > 0 {
                old(self)@.drop_first()
            } else {
                old(self)@
            }),
    {
        proof {
            use_type_invariant(&*self);
        }
        let v4: bool = self.v4;
        let last: u128 = self.last;
        let skip: Option<u128> = self.skip;
        let mut next: Option<u128> = self.next;
        let mut target: Option<IpAddress> = None;
        loop
            invariant_except_break
                target is None,
                old(self)@ == (Targets { v4, next, last, skip })@,
            invariant
                last <= max_number(v4),
            ensures
                target == (if old(self)@.len() > 0 {
                    Some(old(self)@[0])
                } else {
                    None
                }),
                (Targets { v4, next, last, skip })@ == (if old(self)@.len() > 0 {
                    old(self)@.drop_first()
                } else {
                    old(self)@
                }),
            decreases
                (match next {
                    Some(number) => last - number + 1,
                    None => 0,
                }),
        {
            match next {
                Some(number) => {
                    if number > last {
                        break ;
                    }
                    let following: Option<u128> = if number == last {
                        None
                    } else {
                        Some(number + 1)
                    };
                    let skipped: bool = match skip {
                        Some(skip) => skip == number,
                        None => false,
                    };
                    // What is left starts with the following number.
                    assert((Targets { v4, next: following, last, skip })@ == addresses(
                        v4,
                        number + 1,
                        last as int,
                        optional_number(skip),
                    ));
                    next = following;
                    if !skipped {
                        let found: IpAddress = if v4 {
                            IpAddress::V4(number as u32)
                        } else {
                            IpAddress::V6(number)
                        };
                        target = Some(found);
                        break ;
                    }
                },
                None => {
                    break ;
                },
            }
        }
        *self = Targets { v4, next, last, skip };
        target
    }
}

/// Whether an address is among some addresses.
pub fn contains_address(list: &Vec<IpAddress>, ip: IpAddress) -> (found: bool)
    ensures
        found == list@.contains(ip),
{
    let mut i: usize = 0;
    while i < list.len()
        invariant
            i <= list@.len(),
            forall|k: int| 0 <= k < i ==> list@[k] != ip,
        decreases list@.len() - i,
    {
        if list[i] == ip {
            return true;
        }
        i = i + 1;
    }
    false
}

/// The addresses of a run are those whose numbers lie between its ends and are
/// not skipped.
pub proof fn law_addresses_are_the_numbers_between(
    v4: bool,
    from: int,
    last: int,
    skip: Option<int>,
    number: int,
)
    requires
        0 <= from,
        last <= max_number(v4),
        0 <= number <= max_number(v4),
    ensures
        addresses(v4, from, last, skip).contains(address(v4, number)) <==> {
            &&& from <= number <= last
            &&& skip != Some(number)
        },
    decreases last - from + 1,
{
    let run = addresses(v4, from, last, skip);
    if from <= last {
        law_addresses_are_the_numbers_between(v4, from + 1, last, skip, number);
        let rest = addresses(v4, from + 1, last, skip);
        if skip != Some(from) {
            assert(run[0] == address(v4, from));
            if rest.contains(address(v4, number)) {
                let i = choose|i: int| 0 <= i < rest.len() && rest[i] == address(v4, number);
                assert(run[i + 1] == address(v4, number));
            }
        }
    }
}

/// No address occurs twice in a run.
pub proof fn law_addresses_are_distinct(v4: bool, from: int, last: int, skip: Option<int>)
    requires
        0 <= from,
        last <= max_number(v4),
    ensures
        addresses(v4, from, last, skip).no_duplicates(),
    decreases last - from + 1,
{
    if from <= last {
        law_addresses_are_distinct(v4, from + 1, last, skip);
        law_addresses_are_the_numbers_between(v4, from + 1, last, skip, from);
    }
}

/// The number of an address.
spec fn number_of(ip: IpAddress) -> int {
    match ip {
        IpAddress::V4(number) => number as int,
        IpAddress::V6(number) => number as int,
    }
}

/// The addresses of a run are of its kind, between its ends, and in ascending
/// order.
proof fn lemma_addresses_ascend(v4: bool, from: int, last: int, skip: Option<int>)
    requires
        0 <= from,
        last <= max_number(v4),
    ensures
        forall|i: int|
            0 <= i < addresses(v4, from, last, skip).len() ==> {
                let ip = #[trigger] addresses(v4, from, last, skip)[i];
                &&& from <= number_of(ip) <= last
                &&& v4 <==> ip is V4
            },
        forall|i: int, j: int|
            0 <= i < j < addresses(v4, from, last, skip).len() ==> number_of(
                #[trigger] addresses(v4, from, last, skip)[i],
            ) < number_of(#[trigger] addresses(v4, from, last, skip)[j]),
    decreases last - from + 1,
{
    if from <= last {
        lemma_addresses_ascend(v4, from + 1, last, skip);
        let rest = addresses(v4, from + 1, last, skip);
        let run = addresses(v4, from, last, skip);
        if skip != Some(from) {
            assert(run[0] == address(v4, from));
            assert(forall|i: int| 0 < i < run.len() ==> #[trigger] run[i] == rest[i - 1]);
        }
    }
}

/// A run of IPv4 addresses holds those between its ends that are not skipped, in
/// ascending order and each once, and nothing else.
pub proof fn law_run_of_v4_addresses(first: u32, last: u32, skip: Option<int>, ip: u32)
    ensures
        ({
            let run = addresses(true, first as int, last as int, skip);
            &&& run.contains(IpAddress::V4(ip)) <==> first <= ip <= last && skip != Some(ip as int)
            &&& forall|i: int| 0 <= i < run.len() ==> (#[trigger] run[i]) is V4
            &&& forall|i: int, j: int|
                0 <= i < j < run.len() ==> (#[trigger] run[i])->V4_0 < (#[trigger] run[j])->V4_0
        }),
{
    law_addresses_are_the_numbers_between(true, first as int, last as int, skip, ip as int);
    lemma_addresses_ascend(true, first as int, last as int, skip);
}

/// A run of IPv6 addresses holds those between its ends that are not skipped, in
/// ascending order and each once, and nothing else.
pub proof fn law_run_of_v6_addresses(first: u128, last: u128, skip: Option<int>, ip: u128)
    ensures
        ({
            let run = addresses(false, first as int, last as int, skip);
            &&& run.contains(IpAddress::V6(ip)) <==> first <= ip <= last && skip != Some(ip as int)
            &&& forall|i: int| 0 <= i < run.len() ==> (#[trigger] run[i]) is V6
            &&& forall|i: int, j: int|
                0 <= i < j < run.len() ==> (#[trigger] run[i])->V6_0 < (#[trigger] run[j])->V6_0
        }),
{
    law_addresses_are_the_numbers_between(false, first as int, last as int, skip, ip as int);
    lemma_addresses_ascend(false, first as int, last as int, skip);
}

/// A number that may be missing is the number.
pub proof fn law_optional_number(number: u128)
    ensures
        optional_number(Some(number)) == Some(number as int),
        optional_number(None) is None,
{
}

} // verus!
