use vstd::prelude::*;
use crate::character::Character;
use crate::event::{MisterXAbilityData, MisterXActionType};

verus! {

/// One single move of the fugitive: where it went and how.
#[derive(Clone, Copy, Debug, PartialEq, Eq, Structural)]
pub struct MoveData {
    pub station: u8,
    pub action_type: MisterXActionType,
}

/// One turn of the fugitive: a single move, or a double move.
#[derive(Clone, Copy, Debug, PartialEq, Eq, Structural)]
pub enum Action {
    Single(MoveData),
    Double(MoveData, MoveData),
}

/// Hidden moves the fugitive starts with.
pub const INITIAL_HIDDEN: u8 = 2;

/// Double moves the fugitive starts with.
pub const INITIAL_DOUBLE_MOVES: u8 = 2;

/// The single moves of one turn, in order.
pub open spec fn moves_of(a: Action) -> Seq<MoveData> {
    match a {
        Action::Single(m) => seq![m],
        Action::Double(m1, m2) => seq![m1, m2],
    }
}

/// The station a turn ends on.
pub open spec fn end_station(a: Action) -> u8 {
    match a {
        Action::Single(m) => m.station,
        Action::Double(_, m2) => m2.station,
    }
}

/// All single moves of the turns `s`, in order.
pub open spec fn flatten(s: Seq<Action>) -> Seq<MoveData>
    decreases s.len(),
{
    if s.len() == 0 {
        seq![]
    } else {
        flatten(s.drop_last()) + moves_of(s.last())
    }
}

/// The transports of all single moves of the turns `s`, in order.
pub open spec fn types_of(s: Seq<Action>) -> Seq<MisterXActionType> {
    flatten(s).map_values(|m: MoveData| m.action_type)
}

pub open spec fn hidden_in_move(m: MoveData) -> nat {
    if m.action_type == MisterXActionType::Hidden {
        1
    } else {
        0
    }
}

/// Hidden moves in one turn.
pub open spec fn hidden_in(a: Action) -> nat {
    match a {
        Action::Single(m) => hidden_in_move(m),
        Action::Double(m1, m2) => hidden_in_move(m1) + hidden_in_move(m2),
    }
}

pub open spec fn is_double(a: Action) -> bool {
    a is Double
}

/// Hidden moves in the turns `s`.
pub open spec fn count_hidden(s: Seq<Action>) -> nat
    decreases s.len(),
{
    if s.len() == 0 {
        0
    } else {
        count_hidden(s.drop_last()) + hidden_in(s.last())
    }
}

/// Double moves in the turns `s`.
pub open spec fn count_double(s: Seq<Action>) -> nat
    decreases s.len(),
{
    if s.len() == 0 {
        0
    } else {
        count_double(s.drop_last()) + if is_double(s.last()) {
            1nat
        } else {
            0nat
        }
    }
}

proof fn lemma_hidden_prefix(s: Seq<Action>, j: int)
    requires
        0 <= j <= s.len(),
    ensures
        count_hidden(s.subrange(0, j)) <= count_hidden(s),
    decreases s.len() - j,
{
    if j < s.len() {
        lemma_hidden_prefix(s, j + 1);
        assert(s.subrange(0, j + 1).drop_last() =~= s.subrange(0, j));
    } else {
        assert(s.subrange(0, j) =~= s);
    }
}

pub proof fn lemma_counts_push(s: Seq<Action>, a: Action)
    ensures
        count_hidden(s.push(a)) == count_hidden(s) + hidden_in(a),
        count_double(s.push(a)) == count_double(s) + if is_double(a) {
            1nat
        } else {
            0nat
        },
        flatten(s.push(a)) == flatten(s) + moves_of(a),
{
    assert(s.push(a).drop_last() =~= s);
}

/// The fugitive: a start station, the turns made so far, and the abilities
/// it started with.
pub struct MisterX {
    start_station_id: u8,
    actions: Vec<Action>,
    abilities: MisterXAbilityData,
}

impl MisterX {
    pub closed spec fn history(&self) -> Seq<Action> {
        self.actions@
    }

    pub closed spec fn initial_abilities(&self) -> MisterXAbilityData {
        self.abilities
    }

    /// Hidden moves left.
    pub open spec fn remaining_hidden(&self) -> int {
        self.initial_abilities().hidden - count_hidden(self.history())
    }

    /// Double moves left.
    pub open spec fn remaining_double(&self) -> int {
        self.initial_abilities().double_move - count_double(self.history())
    }

    /// No ability count has gone below zero.
    pub open spec fn inv(&self) -> bool {
        &&& count_hidden(self.history()) <= self.initial_abilities().hidden
        &&& count_double(self.history()) <= self.initial_abilities().double_move
    }

    /// The abilities left.
    pub open spec fn spec_abilities(&self) -> MisterXAbilityData {
        MisterXAbilityData {
            double_move: self.remaining_double() as u8,
            hidden: self.remaining_hidden() as u8,
        }
    }

    /// Whether `a` can be added to the history: its hidden moves are left,
    /// and a double move is left where it is one.
    pub open spec fn allows(&self, a: Action) -> bool {
        &&& hidden_in(a) <= self.remaining_hidden()
        &&& is_double(a) ==> self.remaining_double() > 0
    }

    /// The fugitive at `station_id` with the standard abilities.
    pub fn new(station_id: u8) -> (r: MisterX)
        ensures
            r.spec_start_station() == station_id,
            r.history() == Seq::<Action>::empty(),
            r.initial_abilities() == (MisterXAbilityData {
                double_move: INITIAL_DOUBLE_MOVES,
                hidden: INITIAL_HIDDEN,
            }),
            r.inv(),
    {
        MisterX::with_abilities(
            station_id,
            MisterXAbilityData { double_move: INITIAL_DOUBLE_MOVES, hidden: INITIAL_HIDDEN },
        )
    }

    /// The fugitive at `station_id` that starts with `abilities`.
    pub fn with_abilities(station_id: u8, abilities: MisterXAbilityData) -> (r: MisterX)
        ensures
            r.spec_start_station() == station_id,
            r.history() == Seq::<Action>::empty(),
            r.initial_abilities() == abilities,
            r.inv(),
    {
        MisterX { start_station_id: station_id, actions: Vec::new(), abilities }
    }

    /// Number of available hidden moves.
    pub fn hidden(&self) -> (r: u8)
        requires
            self.inv(),
        ensures
            r == self.remaining_hidden(),
    {
        let mut count: usize = 0;
        let mut i: usize = 0;
        while i < self.actions.len()
            invariant
                i <= self.actions@.len(),
                self.inv(),
                count == count_hidden(self.actions@.subrange(0, i as int)),
            decreases self.actions@.len() - i,
        {
            proof {
                let pre = self.actions@.subrange(0, i as int + 1);
                assert(pre.drop_last() =~= self.actions@.subrange(0, i as int));
                lemma_hidden_prefix(self.actions@, i as int + 1);
            }
            match self.actions[i] {
                Action::Single(m) => {
                    if m.action_type == MisterXActionType::Hidden {
                        count = count + 1;
                    }
                },
                Action::Double(m1, m2) => {
                    if m1.action_type == MisterXActionType::Hidden {
                        count = count + 1;
                    }
                    if m2.action_type == MisterXActionType::Hidden {
                        count = count + 1;
                    }
                },
            }
            i = i + 1;
        }
        assert(self.actions@.subrange(0, i as int) =~= self.actions@);
        self.abilities.hidden - count as u8
    }

    /// Number of available double moves.
    pub fn double_moves(&self) -> (r: u8)
        requires
            self.inv(),
        ensures
            r == self.remaining_double(),
    {
        let mut count: usize = 0;
        let mut i: usize = 0;
        while i < self.actions.len()
            invariant
                i <= self.actions@.len(),
                count <= i,
                count == count_double(self.actions@.subrange(0, i as int)),
            decreases self.actions@.len() - i,
        {
            proof {
                let pre = self.actions@.subrange(0, i as int + 1);
                assert(pre.drop_last() =~= self.actions@.subrange(0, i as int));
            }
            if let Action::Double(_, _) = self.actions[i] {
                count = count + 1;
            }
            i = i + 1;
        }
        assert(self.actions@.subrange(0, i as int) =~= self.actions@);
        self.abilities.double_move - count as u8
    }

    /// All abilities left.
    pub fn abilities(&self) -> (r: MisterXAbilityData)
        requires
            self.inv(),
        ensures
            r == self.spec_abilities(),
    {
        MisterXAbilityData { double_move: self.double_moves(), hidden: self.hidden() }
    }

    /// Whether a single move of kind `action` is possible: the plain
    /// transports always are, a hidden move while one is left.
    pub fn can_do_action(&self, action: &MisterXActionType) -> (r: bool)
        requires
            self.inv(),
        ensures
            r == (*action != MisterXActionType::Hidden || self.remaining_hidden() > 0),
    {
        match action {
            MisterXActionType::Taxi => true,
            MisterXActionType::Bus => true,
            MisterXActionType::Underground => true,
            MisterXActionType::Hidden => self.hidden() > 0,
        }
    }

    /// The turns made so far.
    pub fn actions(&self) -> (r: &Vec<Action>)
        ensures
            r@ == self.history(),
    {
        &self.actions
    }

    /// The transports of all single moves so far, double moves flattened.
    pub fn action_types(&self) -> (r: Vec<MisterXActionType>)
        ensures
            r@ == types_of(self.history()),
    {
        let mut r: Vec<MisterXActionType> = Vec::new();
        let mut i: usize = 0;
        while i < self.actions.len()
            invariant
                i <= self.actions@.len(),
                r@ == types_of(self.actions@.subrange(0, i as int)),
            decreases self.actions@.len() - i,
        {
            proof {
                let pre = self.actions@.subrange(0, i as int + 1);
                assert(pre.drop_last() =~= self.actions@.subrange(0, i as int));
            }
            match self.actions[i] {
                Action::Single(m) => r.push(m.action_type),
                Action::Double(m1, m2) => {
                    r.push(m1.action_type);
                    r.push(m2.action_type);
                },
            }
            i = i + 1;
            assert(r@ =~= types_of(self.actions@.subrange(0, i as int)));
        }
        assert(self.actions@.subrange(0, i as int) =~= self.actions@);
        r
    }

    /// Drops the last turn where more than `target` were made, so that the
    /// turn of the current round can be made again.
    pub fn trim_actions(&mut self, target: usize) -> (r: Option<Action>)
        requires
            old(self).inv(),
        ensures
            r == if old(self).history().len() > target {
                Some(old(self).history().last())
            } else {
                None::<Action>
            },
            final(self).history() == if old(self).history().len() > target {
                old(self).history().drop_last()
            } else {
                old(self).history()
            },
            final(self).spec_start_station() == old(self).spec_start_station(),
            final(self).initial_abilities() == old(self).initial_abilities(),
            final(self).inv(),
    {
        if self.actions.len() > target {
            self.actions.pop()
        } else {
            None
        }
    }

    /// Records the turn `action`, which the abilities left must allow.
    pub fn add_action(&mut self, action: Action)
        requires
            old(self).inv(),
            old(self).allows(action),
        ensures
            final(self).history() == old(self).history().push(action),
            final(self).spec_start_station() == old(self).spec_start_station(),
            final(self).initial_abilities() == old(self).initial_abilities(),
            final(self).inv(),
    {
        proof {
            lemma_counts_push(self.actions@, action);
        }
        self.actions.push(action);
    }
}

impl Character for MisterX {
    closed spec fn spec_start_station(&self) -> u8 {
        self.start_station_id
    }

    /// The station the last turn ended on, or the start.
    open spec fn spec_station_id(&self) -> u8 {
        if self.history().len() == 0 {
            self.spec_start_station()
        } else {
            end_station(self.history().last())
        }
    }

    open spec fn spec_len(&self) -> nat {
        self.history().len()
    }

    open spec fn wf(&self) -> bool {
        self.inv()
    }

    fn start_station(&self) -> (r: u8) {
        self.start_station_id
    }

    fn station_id(&self) -> (r: u8) {
        match self.actions.last() {
            Some(step) => match step {
                Action::Single(m) => m.station,
                Action::Double(_, m) => m.station,
            },
            None => self.start_station_id,
        }
    }

    fn number_of_actions(&self) -> (r: usize) {
        self.actions.len()
    }
}

} // verus!
