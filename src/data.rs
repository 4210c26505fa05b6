use vstd::prelude::*;
use crate::detective::{INITIAL_BUS, INITIAL_TAXI, INITIAL_UNDERGROUND};
use crate::event::{DetectiveTransportData, MisterXAbilityData};
use crate::mister_x::{INITIAL_DOUBLE_MOVES, INITIAL_HIDDEN};

verus! {

/// A kind of transport between two stations.
#[derive(Clone, Copy, Debug, PartialEq, Eq, Structural)]
pub enum StationType {
    Taxi,
    Bus,
    Underground,
    Water,
}

/// A station of the map.
#[derive(Clone, Debug)]
pub struct Station {
    pub id: u8,
    pub pos_x: u32,
    pub pos_y: u32,
    pub types: Vec<StationType>,
}

/// An undirected edge of the map, usable with one kind of transport.
#[derive(Clone, Copy, Debug, PartialEq, Eq, Structural)]
pub struct Connection {
    pub from: u8,
    pub to: u8,
    pub mode: StationType,
}

/// One round of the schedule: whether the fugitive is shown after it.
#[derive(Clone, Copy, Debug, PartialEq, Eq, Structural)]
pub struct Round {
    pub index: u8,
    pub show_mister_x: bool,
}

/// Number of rounds of the standard schedule.
pub const NUMBER_OF_ROUNDS: u8 = 24;

/// Whether the round with the one-based `index` reveals the fugitive in the
/// standard schedule.
pub open spec fn is_reveal_index(index: int) -> bool {
    index == 3 || index == 8 || index == 13 || index == 18 || index == 24
}

/// The standard schedule: rounds one to twenty-four, in order.
pub open spec fn standard_rounds() -> Seq<Round> {
    Seq::new(
        NUMBER_OF_ROUNDS as nat,
        |i: int| Round { index: (i + 1) as u8, show_mister_x: is_reveal_index(i + 1) },
    )
}

/// The colors given to detectives, in order.
pub open spec fn palette() -> Seq<Seq<char>> {
    seq!["red"@, "blue"@, "green"@, "yellow"@, "purple"@]
}

/// Builds the standard schedule of twenty-four rounds; the fugitive is shown
/// after rounds 3, 8, 13, 18 and 24 (one-based).
pub fn standard_round_schedule() -> (r: Vec<Round>)
    ensures
        r@ == standard_rounds(),
{
    let mut r: Vec<Round> = Vec::new();
    let mut index: u8 = 1;
    while index <= NUMBER_OF_ROUNDS
        invariant
            1 <= index <= NUMBER_OF_ROUNDS + 1,
            r@ == standard_rounds().subrange(0, index - 1),
        decreases NUMBER_OF_ROUNDS + 1 - index,
    {
        let show = index == 3 || index == 8 || index == 13 || index == 18 || index == 24;
        r.push(Round { index, show_mister_x: show });
        index = index + 1;
        assert(r@ =~= standard_rounds().subrange(0, index - 1));
    }
    assert(r@ =~= standard_rounds());
    r
}

/// The read-only map and the rules that go with it: stations, edges, the
/// round schedule, the pools that start stations are drawn from, and what
/// each side starts with.
pub struct DataService {
    stations: Vec<Station>,
    connections: Vec<Connection>,
    rounds: Vec<Round>,
    detective_stations: Vec<u8>,
    mister_x_stations: Vec<u8>,
    tickets: DetectiveTransportData,
    abilities: MisterXAbilityData,
}

impl DataService {
    pub closed spec fn spec_stations(&self) -> Seq<Station> {
        self.stations@
    }

    pub closed spec fn spec_connections(&self) -> Seq<Connection> {
        self.connections@
    }

    pub closed spec fn spec_rounds(&self) -> Seq<Round> {
        self.rounds@
    }

    pub closed spec fn spec_detective_stations(&self) -> Seq<u8> {
        self.detective_stations@
    }

    pub closed spec fn spec_mister_x_stations(&self) -> Seq<u8> {
        self.mister_x_stations@
    }

    pub closed spec fn spec_tickets(&self) -> DetectiveTransportData {
        self.tickets
    }

    pub closed spec fn spec_abilities(&self) -> MisterXAbilityData {
        self.abilities
    }

    /// A schedule of one to 255 rounds; start pools without repeats, the
    /// fugitive's not empty, and no station in both.
    pub open spec fn inv(&self) -> bool {
        &&& 1 <= self.spec_rounds().len() <= 255
        &&& self.spec_detective_stations().no_duplicates()
        &&& self.spec_mister_x_stations().len() > 0
        &&& forall|i: int, j: int|
            0 <= i < self.spec_detective_stations().len() && 0 <= j
                < self.spec_mister_x_stations().len() ==> #[trigger] self.spec_detective_stations()[i]
                != #[trigger] self.spec_mister_x_stations()[j]
    }

    /// A map with the standard schedule, tickets and abilities.
    pub fn new(
        stations: Vec<Station>,
        connections: Vec<Connection>,
        detective_stations: Vec<u8>,
        mister_x_stations: Vec<u8>,
    ) -> (r: DataService)
        ensures
            r.spec_stations() == stations@,
            r.spec_connections() == connections@,
            r.spec_rounds() == standard_rounds(),
            r.spec_detective_stations() == detective_stations@,
            r.spec_mister_x_stations() == mister_x_stations@,
            r.spec_tickets() == (DetectiveTransportData {
                taxi: INITIAL_TAXI,
                bus: INITIAL_BUS,
                underground: INITIAL_UNDERGROUND,
            }),
            r.spec_abilities() == (MisterXAbilityData {
                double_move: INITIAL_DOUBLE_MOVES,
                hidden: INITIAL_HIDDEN,
            }),
    {
        DataService {
            stations,
            connections,
            rounds: standard_round_schedule(),
            detective_stations,
            mister_x_stations,
            tickets: DetectiveTransportData {
                taxi: INITIAL_TAXI,
                bus: INITIAL_BUS,
                underground: INITIAL_UNDERGROUND,
            },
            abilities: MisterXAbilityData {
                double_move: INITIAL_DOUBLE_MOVES,
                hidden: INITIAL_HIDDEN,
            },
        }
    }

    /// The same map with another round schedule.
    pub fn with_rounds(self, rounds: Vec<Round>) -> (r: DataService)
        ensures
            r.spec_rounds() == rounds@,
            r.spec_stations() == self.spec_stations(),
            r.spec_connections() == self.spec_connections(),
            r.spec_detective_stations() == self.spec_detective_stations(),
            r.spec_mister_x_stations() == self.spec_mister_x_stations(),
            r.spec_tickets() == self.spec_tickets(),
            r.spec_abilities() == self.spec_abilities(),
    {
        DataService { rounds, ..self }
    }

    /// The same map with other starting tickets and abilities.
    pub fn with_starting_resources(
        self,
        tickets: DetectiveTransportData,
        abilities: MisterXAbilityData,
    ) -> (r: DataService)
        ensures
            r.spec_rounds() == self.spec_rounds(),
            r.spec_stations() == self.spec_stations(),
            r.spec_connections() == self.spec_connections(),
            r.spec_detective_stations() == self.spec_detective_stations(),
            r.spec_mister_x_stations() == self.spec_mister_x_stations(),
            r.spec_tickets() == tickets,
            r.spec_abilities() == abilities,
    {
        DataService { tickets, abilities, ..self }
    }

    /// Checks the invariant.
    pub fn is_valid(&self) -> (r: bool)
        ensures
            r == self.inv(),
    {
        let n = self.rounds.len();
        if n < 1 || n > 255 || self.mister_x_stations.len() == 0 {
            return false;
        }
        let mut i: usize = 0;
        while i < self.detective_stations.len()
            invariant
                i <= self.detective_stations@.len(),
                forall|a: int, b: int|
                    0 <= a < i && 0 <= b < self.detective_stations@.len() && a != b
                        ==> self.detective_stations@[a] != self.detective_stations@[b],
                forall|a: int, j: int|
                    0 <= a < i && 0 <= j < self.mister_x_stations@.len()
                        ==> self.detective_stations@[a] != self.mister_x_stations@[j],
            decreases self.detective_stations@.len() - i,
        {
            let s = self.detective_stations[i];
            let mut k: usize = 0;
            while k < self.detective_stations.len()
                invariant
                    i < self.detective_stations@.len(),
                    s == self.detective_stations@[i as int],
                    k <= self.detective_stations@.len(),
                    forall|b: int|
                        0 <= b < k && b != i ==> s != self.detective_stations@[b],
                decreases self.detective_stations@.len() - k,
            {
                if k != i && self.detective_stations[k] == s {
                    return false;
                }
                k = k + 1;
            }
            let mut j: usize = 0;
            while j < self.mister_x_stations.len()
                invariant
                    i < self.detective_stations@.len(),
                    s == self.detective_stations@[i as int],
                    j <= self.mister_x_stations@.len(),
                    forall|b: int| 0 <= b < j ==> s != self.mister_x_stations@[b],
                decreases self.mister_x_stations@.len() - j,
            {
                if self.mister_x_stations[j] == s {
                    return false;
                }
                j = j + 1;
            }
            i = i + 1;
        }
        true
    }

    pub fn detective_stations(&self) -> (r: &Vec<u8>)
        ensures
            r@ == self.spec_detective_stations(),
    {
        &self.detective_stations
    }

    pub fn mister_x_stations(&self) -> (r: &Vec<u8>)
        ensures
            r@ == self.spec_mister_x_stations(),
    {
        &self.mister_x_stations
    }

    pub fn tickets(&self) -> (r: DetectiveTransportData)
        ensures
            r == self.spec_tickets(),
    {
        self.tickets
    }

    pub fn abilities(&self) -> (r: MisterXAbilityData)
        ensures
            r == self.spec_abilities(),
    {
        self.abilities
    }

    /// The detective colors, in the order they are given out.
    pub fn get_colors(&self) -> (r: Vec<String>)
        ensures
            r@.len() == 5,
            forall|i: int| 0 <= i < 5 ==> (#[trigger] r@[i])@ == palette()[i],
    {
        let r = vec![
            "red".to_string(),
            "blue".to_string(),
            "green".to_string(),
            "yellow".to_string(),
            "purple".to_string(),
        ];
        r
    }

    /// All stations of the map, in the order they were given.
    pub fn get_all_stations(&self) -> (r: Vec<Station>)
        ensures
            r@.len() == self.spec_stations().len(),
            forall|i: int|
                0 <= i < r@.len() ==> (#[trigger] r@[i]).id == self.spec_stations()[i].id
                    && r@[i].pos_x == self.spec_stations()[i].pos_x && r@[i].pos_y
                    == self.spec_stations()[i].pos_y && r@[i].types@
                    == self.spec_stations()[i].types@,
    {
        let mut r: Vec<Station> = Vec::new();
        let mut i: usize = 0;
        while i < self.stations.len()
            invariant
                i <= self.stations@.len(),
                r@.len() == i,
                forall|j: int|
                    0 <= j < i ==> (#[trigger] r@[j]).id == self.stations@[j].id && r@[j].pos_x
                        == self.stations@[j].pos_x && r@[j].pos_y == self.stations@[j].pos_y
                        && r@[j].types@ == self.stations@[j].types@,
            decreases self.stations@.len() - i,
        {
            let s = &self.stations[i];
            let mut types: Vec<StationType> = Vec::new();
            let mut k: usize = 0;
            while k < s.types.len()
                invariant
                    k <= s.types@.len(),
                    types@ == s.types@.subrange(0, k as int),
                decreases s.types@.len() - k,
            {
                types.push(s.types[k]);
                k = k + 1;
                assert(types@ =~= s.types@.subrange(0, k as int));
            }
            assert(types@ =~= s.types@);
            r.push(Station { id: s.id, pos_x: s.pos_x, pos_y: s.pos_y, types });
            i = i + 1;
        }
        r
    }

    /// All edges of the map, in the order they were given.
    pub fn get_all_connections(&self) -> (r: Vec<Connection>)
        ensures
            r@ == self.spec_connections(),
    {
        let mut r: Vec<Connection> = Vec::new();
        let mut i: usize = 0;
        while i < self.connections.len()
            invariant
                i <= self.connections@.len(),
                r@ == self.connections@.subrange(0, i as int),
            decreases self.connections@.len() - i,
        {
            r.push(self.connections[i]);
            i = i + 1;
            assert(r@ =~= self.connections@.subrange(0, i as int));
        }
        assert(r@ =~= self.connections@);
        r
    }

    /// The round schedule.
    pub fn get_all_rounds(&self) -> (r: Vec<Round>)
        ensures
            r@ == self.spec_rounds(),
    {
        let mut r: Vec<Round> = Vec::new();
        let mut i: usize = 0;
        while i < self.rounds.len()
            invariant
                i <= self.rounds@.len(),
                r@ == self.rounds@.subrange(0, i as int),
            decreases self.rounds@.len() - i,
        {
            r.push(self.rounds[i]);
            i = i + 1;
            assert(r@ =~= self.rounds@.subrange(0, i as int));
        }
        assert(r@ =~= self.rounds@);
        r
    }
}

} // verus!
