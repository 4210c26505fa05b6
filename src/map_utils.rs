use vstd::prelude::*;
use crate::character::ActionTypeTrait;
use crate::data::{Connection, StationType};
use crate::event::{DetectiveActionType, DetectiveTransportData, MisterXAbilityData, MisterXActionType};

verus! {

/// `c` joins `from` and `to`, in either orientation.
pub open spec fn links(c: Connection, from: u8, to: u8) -> bool {
    (c.from == from && c.to == to) || (c.from == to && c.to == from)
}

/// Some edge joins `from` and `to` and is travelled by `action`.
pub open spec fn spec_has_connection<A: ActionTypeTrait>(
    connections: Seq<Connection>,
    from: u8,
    to: u8,
    action: A,
) -> bool {
    exists|i: int|
        0 <= i < connections.len() && links(#[trigger] connections[i], from, to)
            && action.spec_matches(connections[i].mode)
}

/// Whether an edge between `from` and `to` (either orientation) is travelled
/// by `action_type`.
pub fn has_connection<A: ActionTypeTrait>(
    connections: &[Connection],
    from: u8,
    to: u8,
    action_type: &A,
) -> (r: bool)
    ensures
        r == spec_has_connection(connections@, from, to, *action_type),
{
    let mut i: usize = 0;
    while i < connections.len()
        invariant
            i <= connections@.len(),
            forall|j: int|
                0 <= j < i ==> !(links(#[trigger] connections@[j], from, to)
                    && action_type.spec_matches(connections@[j].mode)),
        decreases connections@.len() - i,
    {
        let c = connections[i];
        if ((c.from == from && c.to == to) || (c.from == to && c.to == from))
            && action_type.matches(&c.mode) {
            return true;
        }
        i = i + 1;
    }
    false
}

/// The station at the other end of `c`, seen from `station`.
pub open spec fn other_end(c: Connection, station: u8) -> u8 {
    if c.from == station {
        c.to
    } else {
        c.from
    }
}

pub open spec fn touches(c: Connection, station: u8) -> bool {
    c.from == station || c.to == station
}

/// The detective move along `c`, if a ticket for it is left.
pub open spec fn detective_moves_on(
    c: Connection,
    station: u8,
    transport: DetectiveTransportData,
) -> Seq<(u8, DetectiveActionType)> {
    if !touches(c, station) {
        seq![]
    } else {
        match c.mode {
            StationType::Taxi => if transport.taxi > 0 {
                seq![(other_end(c, station), DetectiveActionType::Taxi)]
            } else {
                seq![]
            },
            StationType::Bus => if transport.bus > 0 {
                seq![(other_end(c, station), DetectiveActionType::Bus)]
            } else {
                seq![]
            },
            StationType::Underground => if transport.underground > 0 {
                seq![(other_end(c, station), DetectiveActionType::Underground)]
            } else {
                seq![]
            },
            StationType::Water => seq![],
        }
    }
}

/// The detective moves from `station`, edge by edge in map order.
pub open spec fn spec_detective_moves(
    connections: Seq<Connection>,
    station: u8,
    transport: DetectiveTransportData,
) -> Seq<(u8, DetectiveActionType)>
    decreases connections.len(),
{
    if connections.len() == 0 {
        seq![]
    } else {
        spec_detective_moves(connections.drop_last(), station, transport) + detective_moves_on(
            connections.last(),
            station,
            transport,
        )
    }
}

/// The fugitive's moves along `c`: its own transport (not for water), and a
/// hidden move while one is left. A hidden move is offered on every edge, as
/// it travels any of them.
pub open spec fn mister_x_moves_on(
    c: Connection,
    station: u8,
    ability: MisterXAbilityData,
) -> Seq<(u8, MisterXActionType)> {
    if !touches(c, station) {
        seq![]
    } else {
        let hidden: Seq<(u8, MisterXActionType)> = if ability.hidden > 0 {
            seq![(other_end(c, station), MisterXActionType::Hidden)]
        } else {
            seq![]
        };
        match c.mode {
            StationType::Taxi => seq![(other_end(c, station), MisterXActionType::Taxi)] + hidden,
            StationType::Bus => seq![(other_end(c, station), MisterXActionType::Bus)] + hidden,
            StationType::Underground => seq![(other_end(c, station), MisterXActionType::Underground)]
                + hidden,
            StationType::Water => hidden,
        }
    }
}

/// The fugitive's moves from `station`, edge by edge in map order.
pub open spec fn spec_mister_x_moves(
    connections: Seq<Connection>,
    station: u8,
    ability: MisterXAbilityData,
) -> Seq<(u8, MisterXActionType)>
    decreases connections.len(),
{
    if connections.len() == 0 {
        seq![]
    } else {
        spec_mister_x_moves(connections.drop_last(), station, ability) + mister_x_moves_on(
            connections.last(),
            station,
            ability,
        )
    }
}

/// All moves the fugitive can make from `station` with `ability` left.
pub fn all_valid_mister_x_moves(
    connections: &[Connection],
    station: u8,
    ability: &MisterXAbilityData,
) -> (r: Vec<(u8, MisterXActionType)>)
    ensures
        r@ == spec_mister_x_moves(connections@, station, *ability),
{
    let mut r: Vec<(u8, MisterXActionType)> = Vec::new();
    let mut i: usize = 0;
    while i < connections.len()
        invariant
            i <= connections@.len(),
            r@ == spec_mister_x_moves(connections@.subrange(0, i as int), station, *ability),
        decreases connections@.len() - i,
    {
        let c = connections[i];
        proof {
            let pre = connections@.subrange(0, i as int + 1);
            assert(pre.drop_last() =~= connections@.subrange(0, i as int));
            assert(pre.last() == c);
        }
        if c.from == station || c.to == station {
            let other = if c.from == station {
                c.to
            } else {
                c.from
            };
            match c.mode {
                StationType::Taxi => r.push((other, MisterXActionType::Taxi)),
                StationType::Bus => r.push((other, MisterXActionType::Bus)),
                StationType::Underground => r.push((other, MisterXActionType::Underground)),
                StationType::Water => {},
            }
            if ability.hidden > 0 {
                r.push((other, MisterXActionType::Hidden));
            }
        }
        i = i + 1;
        assert(r@ =~= spec_mister_x_moves(connections@.subrange(0, i as int), station, *ability));
    }
    assert(connections@.subrange(0, i as int) =~= connections@);
    r
}

/// All moves a detective can make from `station` with the tickets `transport`.
pub fn all_valid_detective_moves(
    connections: &[Connection],
    station: u8,
    transport: &DetectiveTransportData,
) -> (r: Vec<(u8, DetectiveActionType)>)
    ensures
        r@ == spec_detective_moves(connections@, station, *transport),
{
    let mut r: Vec<(u8, DetectiveActionType)> = Vec::new();
    let mut i: usize = 0;
    while i < connections.len()
        invariant
            i <= connections@.len(),
            r@ == spec_detective_moves(connections@.subrange(0, i as int), station, *transport),
        decreases connections@.len() - i,
    {
        let c = connections[i];
        proof {
            let pre = connections@.subrange(0, i as int + 1);
            assert(pre.drop_last() =~= connections@.subrange(0, i as int));
            assert(pre.last() == c);
        }
        if c.from == station || c.to == station {
            let other = if c.from == station {
                c.to
            } else {
                c.from
            };
            match c.mode {
                StationType::Taxi => if transport.taxi > 0 {
                    r.push((other, DetectiveActionType::Taxi));
                },
                StationType::Bus => if transport.bus > 0 {
                    r.push((other, DetectiveActionType::Bus));
                },
                StationType::Underground => if transport.underground > 0 {
                    r.push((other, DetectiveActionType::Underground));
                },
                StationType::Water => {},
            }
        }
        i = i + 1;
        assert(r@ =~= spec_detective_moves(connections@.subrange(0, i as int), station, *transport));
    }
    assert(connections@.subrange(0, i as int) =~= connections@);
    r
}

} // verus!
