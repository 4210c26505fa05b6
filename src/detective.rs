use vstd::prelude::*;
use crate::character::Character;
use crate::event::{DetectiveActionType, DetectiveTransportData};

verus! {

/// One move of a detective: where it went and how.
#[derive(Clone, Copy, Debug, PartialEq, Eq, Structural)]
pub struct Action {
    pub station: u8,
    pub action_type: DetectiveActionType,
}

/// Taxi tickets a detective starts with.
pub const INITIAL_TAXI: u8 = 10;

/// Bus tickets a detective starts with.
pub const INITIAL_BUS: u8 = 8;

/// Underground tickets a detective starts with.
pub const INITIAL_UNDERGROUND: u8 = 4;

/// Number of moves in `s` made with transport `t`.
pub open spec fn count_type(s: Seq<Action>, t: DetectiveActionType) -> nat
    decreases s.len(),
{
    if s.len() == 0 {
        0
    } else {
        count_type(s.drop_last(), t) + if s.last().action_type == t {
            1nat
        } else {
            0nat
        }
    }
}

pub proof fn lemma_count_type_push(s: Seq<Action>, a: Action, t: DetectiveActionType)
    ensures
        count_type(s.push(a), t) == count_type(s, t) + if a.action_type == t {
            1nat
        } else {
            0nat
        },
{
    assert(s.push(a).drop_last() =~= s);
}

/// The ticket count of `tickets` for transport `t`.
pub open spec fn ticket_of(tickets: DetectiveTransportData, t: DetectiveActionType) -> nat {
    match t {
        DetectiveActionType::Taxi => tickets.taxi as nat,
        DetectiveActionType::Bus => tickets.bus as nat,
        DetectiveActionType::Underground => tickets.underground as nat,
    }
}

/// A detective: a color, a start station, the moves made so far, and the
/// tickets it started with.
pub struct Detective {
    color: String,
    start_station_id: u8,
    actions: Vec<Action>,
    tickets: DetectiveTransportData,
}

impl Detective {
    pub closed spec fn spec_color(&self) -> Seq<char> {
        self.color@
    }

    pub closed spec fn history(&self) -> Seq<Action> {
        self.actions@
    }

    pub closed spec fn initial_tickets(&self) -> DetectiveTransportData {
        self.tickets
    }

    /// Tickets left for transport `t`: those at the start less those used.
    pub open spec fn remaining(&self, t: DetectiveActionType) -> int {
        ticket_of(self.initial_tickets(), t) - count_type(self.history(), t)
    }

    /// No ticket count has gone below zero.
    pub open spec fn inv(&self) -> bool {
        &&& count_type(self.history(), DetectiveActionType::Taxi) <= self.initial_tickets().taxi
        &&& count_type(self.history(), DetectiveActionType::Bus) <= self.initial_tickets().bus
        &&& count_type(self.history(), DetectiveActionType::Underground)
            <= self.initial_tickets().underground
    }

    /// The tickets left, per transport.
    pub open spec fn spec_tickets(&self) -> DetectiveTransportData {
        DetectiveTransportData {
            taxi: self.remaining(DetectiveActionType::Taxi) as u8,
            bus: self.remaining(DetectiveActionType::Bus) as u8,
            underground: self.remaining(DetectiveActionType::Underground) as u8,
        }
    }

    /// A detective at `station_id` with the standard tickets.
    pub fn new(station_id: u8, color: String) -> (r: Detective)
        ensures
            r.spec_color() == color@,
            r.spec_start_station() == station_id,
            r.history() == Seq::<Action>::empty(),
            r.initial_tickets() == (DetectiveTransportData {
                taxi: INITIAL_TAXI,
                bus: INITIAL_BUS,
                underground: INITIAL_UNDERGROUND,
            }),
            r.inv(),
    {
        Detective::with_tickets(
            station_id,
            color,
            DetectiveTransportData {
                taxi: INITIAL_TAXI,
                bus: INITIAL_BUS,
                underground: INITIAL_UNDERGROUND,
            },
        )
    }

    /// A detective at `station_id` that starts with `tickets`.
    pub fn with_tickets(station_id: u8, color: String, tickets: DetectiveTransportData) -> (r:
        Detective)
        ensures
            r.spec_color() == color@,
            r.spec_start_station() == station_id,
            r.history() == Seq::<Action>::empty(),
            r.initial_tickets() == tickets,
            r.inv(),
    {
        Detective { color, start_station_id: station_id, actions: Vec::new(), tickets }
    }

    pub fn color(&self) -> (r: &str)
        ensures
            r@ == self.spec_color(),
    {
        self.color.as_str()
    }

    /// The color, as an owned string.
    pub fn color_string(&self) -> (r: String)
        ensures
            r@ == self.spec_color(),
    {
        self.color.clone()
    }

    pub fn has_color(&self, color: &String) -> (r: bool)
        ensures
            r == (self.spec_color() == color@),
    {
        self.color == *color
    }

    fn count_of(&self, t: DetectiveActionType) -> (r: u8)
        requires
            self.inv(),
        ensures
            r == count_type(self.history(), t),
    {
        let mut count: usize = 0;
        let mut i: usize = 0;
        while i < self.actions.len()
            invariant
                i <= self.actions@.len(),
                count <= i,
                count == count_type(self.actions@.subrange(0, i as int), t),
            decreases self.actions@.len() - i,
        {
            proof {
                let pre = self.actions@.subrange(0, i as int + 1);
                assert(pre.drop_last() =~= self.actions@.subrange(0, i as int));
            }
            if self.actions[i].action_type == t {
                count = count + 1;
            }
            i = i + 1;
        }
        assert(self.actions@.subrange(0, i as int) =~= self.actions@);
        count as u8
    }

    /// Taxi tickets left.
    pub fn taxi(&self) -> (r: u8)
        requires
            self.inv(),
        ensures
            r == self.remaining(DetectiveActionType::Taxi),
    {
        let used = self.count_of(DetectiveActionType::Taxi);
        self.tickets.taxi - used
    }

    /// Bus tickets left.
    pub fn bus(&self) -> (r: u8)
        requires
            self.inv(),
        ensures
            r == self.remaining(DetectiveActionType::Bus),
    {
        let used = self.count_of(DetectiveActionType::Bus);
        self.tickets.bus - used
    }

    /// Underground tickets left.
    pub fn underground(&self) -> (r: u8)
        requires
            self.inv(),
        ensures
            r == self.remaining(DetectiveActionType::Underground),
    {
        let used = self.count_of(DetectiveActionType::Underground);
        self.tickets.underground - used
    }

    /// All tickets left.
    pub fn tickets(&self) -> (r: DetectiveTransportData)
        requires
            self.inv(),
        ensures
            r == self.spec_tickets(),
    {
        DetectiveTransportData { taxi: self.taxi(), bus: self.bus(), underground: self.underground() }
    }

    /// Whether a ticket for `action` is left.
    pub fn can_do_action(&self, action: &DetectiveActionType) -> (r: bool)
        requires
            self.inv(),
        ensures
            r == (self.remaining(*action) > 0),
    {
        match action {
            DetectiveActionType::Taxi => self.taxi() > 0,
            DetectiveActionType::Bus => self.bus() > 0,
            DetectiveActionType::Underground => self.underground() > 0,
        }
    }

    /// The moves made so far.
    pub fn actions(&self) -> (r: &Vec<Action>)
        ensures
            r@ == self.history(),
    {
        &self.actions
    }

    /// The transports used so far, in order.
    pub fn action_types(&self) -> (r: Vec<DetectiveActionType>)
        ensures
            r@ == self.history().map_values(|a: Action| a.action_type),
    {
        let mut r: Vec<DetectiveActionType> = Vec::new();
        let mut i: usize = 0;
        while i < self.actions.len()
            invariant
                i <= self.actions@.len(),
                r@ == self.actions@.subrange(0, i as int).map_values(|a: Action| a.action_type),
            decreases self.actions@.len() - i,
        {
            r.push(self.actions[i].action_type);
            i = i + 1;
            assert(r@ =~= self.actions@.subrange(0, i as int).map_values(
                |a: Action| a.action_type,
            ));
        }
        assert(self.actions@.subrange(0, i as int) =~= self.actions@);
        r
    }

    /// Drops the last move where more than `target` were made, so that a
    /// move of the current round can be made again.
    pub fn trim_actions(&mut self, target: usize) -> (r: Option<Action>)
        requires
            old(self).inv(),
        ensures
            r == if old(self).history().len() > target {
                Some(old(self).history().last())
            } else {
                None::<Action>
            },
            final(self).history() == if old(self).history().len() > target {
                old(self).history().drop_last()
            } else {
                old(self).history()
            },
            final(self).spec_color() == old(self).spec_color(),
            final(self).spec_start_station() == old(self).spec_start_station(),
            final(self).initial_tickets() == old(self).initial_tickets(),
            final(self).inv(),
    {
        if self.actions.len() > target {
            self.actions.pop()
        } else {
            None
        }
    }

    /// Records `action`, which must use a ticket that is left.
    pub fn add_action(&mut self, action: Action)
        requires
            old(self).inv(),
            old(self).remaining(action.action_type) > 0,
        ensures
            final(self).history() == old(self).history().push(action),
            final(self).spec_color() == old(self).spec_color(),
            final(self).spec_start_station() == old(self).spec_start_station(),
            final(self).initial_tickets() == old(self).initial_tickets(),
            final(self).inv(),
    {
        proof {
            lemma_count_type_push(self.actions@, action, DetectiveActionType::Taxi);
            lemma_count_type_push(self.actions@, action, DetectiveActionType::Bus);
            lemma_count_type_push(self.actions@, action, DetectiveActionType::Underground);
        }
        self.actions.push(action);
    }
}

impl Character for Detective {
    closed spec fn spec_start_station(&self) -> u8 {
        self.start_station_id
    }

    /// The station of the last move, or the start.
    open spec fn spec_station_id(&self) -> u8 {
        if self.history().len() == 0 {
            self.spec_start_station()
        } else {
            self.history().last().station
        }
    }

    open spec fn spec_len(&self) -> nat {
        self.history().len()
    }

    open spec fn wf(&self) -> bool {
        self.inv()
    }

    fn start_station(&self) -> (r: u8) {
        self.start_station_id
    }

    fn station_id(&self) -> (r: u8) {
        match self.actions.last() {
            Some(step) => step.station,
            None => self.start_station_id,
        }
    }

    fn number_of_actions(&self) -> (r: usize) {
        self.actions.len()
    }
}

} // verus!
