use vstd::prelude::*;
use crate::data::{Connection, Station, StationType};

verus! {

/// `s` cut at every `sep`: `n` separators give `n + 1` pieces, empty ones
/// included.
pub open spec fn split(s: Seq<u8>, sep: u8) -> Seq<Seq<u8>>
    decreases s.len(),
{
    if s.len() == 0 {
        seq![seq![]]
    } else {
        let prev = split(s.drop_last(), sep);
        if s.last() == sep {
            prev.push(seq![])
        } else {
            prev.update(prev.len() - 1, prev.last().push(s.last()))
        }
    }
}

proof fn lemma_split_not_empty(s: Seq<u8>, sep: u8)
    ensures
        split(s, sep).len() >= 1,
    decreases s.len(),
{
    if s.len() > 0 {
        lemma_split_not_empty(s.drop_last(), sep);
    }
}

pub open spec fn pieces_view(v: Seq<Vec<u8>>) -> Seq<Seq<u8>> {
    v.map_values(|p: Vec<u8>| p@)
}

/// Cuts `text` at every `sep`.
pub fn split_bytes(text: &[u8], sep: u8) -> (r: Vec<Vec<u8>>)
    ensures
        pieces_view(r@) == split(text@, sep),
{
    let mut done: Vec<Vec<u8>> = Vec::new();
    let mut current: Vec<u8> = Vec::new();
    let mut i: usize = 0;
    while i < text.len()
        invariant
            i <= text@.len(),
            pieces_view(done@).push(current@) == split(text@.subrange(0, i as int), sep),
        decreases text@.len() - i,
    {
        let b = text[i];
        proof {
            let pre = text@.subrange(0, i as int + 1);
            assert(pre.drop_last() =~= text@.subrange(0, i as int));
            assert(pre.last() == b);
        }
        if b == sep {
            let mut fresh: Vec<u8> = Vec::new();
            std::mem::swap(&mut fresh, &mut current);
            proof {
                assert(pieces_view(done@.push(fresh)) =~= pieces_view(done@).push(fresh@));
            }
            done.push(fresh);
            proof {
                assert(pieces_view(done@).push(current@) =~= split(
                    text@.subrange(0, i as int + 1),
                    sep,
                ));
            }
        } else {
            current.push(b);
            proof {
                assert(pieces_view(done@).push(current@) =~= split(
                    text@.subrange(0, i as int + 1),
                    sep,
                ));
            }
        }
        i = i + 1;
    }
    assert(text@.subrange(0, i as int) =~= text@);
    proof {
        assert(pieces_view(done@.push(current)) =~= pieces_view(done@).push(current@));
    }
    done.push(current);
    done
}

pub open spec fn is_digit(b: u8) -> bool {
    48 <= b <= 57
}

/// The value of the decimal digits `f`.
pub open spec fn decimal(f: Seq<u8>) -> nat
    decreases f.len(),
{
    if f.len() == 0 {
        0
    } else {
        decimal(f.drop_last()) * 10 + (f.last() - 48) as nat
    }
}

/// `f` is a decimal number no larger than `max`.
pub open spec fn number_in(f: Seq<u8>, max: nat) -> bool {
    &&& f.len() > 0
    &&& forall|i: int| 0 <= i < f.len() ==> is_digit(#[trigger] f[i])
    &&& decimal(f) <= max
}

proof fn lemma_decimal_grows(f: Seq<u8>, j: int)
    requires
        0 <= j <= f.len(),
        forall|i: int| 0 <= i < f.len() ==> is_digit(#[trigger] f[i]),
    ensures
        decimal(f.subrange(0, j)) <= decimal(f),
    decreases f.len() - j,
{
    if j < f.len() {
        lemma_decimal_grows(f, j + 1);
        assert(f.subrange(0, j + 1).drop_last() =~= f.subrange(0, j));
    } else {
        assert(f.subrange(0, j) =~= f);
    }
}

/// Reads the decimal number `f` if it is one no larger than `max`.
pub fn parse_number(f: &Vec<u8>, max: u32) -> (r: Option<u32>)
    ensures
        match r {
            Some(v) => number_in(f@, max as nat) && v == decimal(f@),
            None => !number_in(f@, max as nat),
        },
{
    if f.len() == 0 {
        return None;
    }
    let mut value: u64 = 0;
    let mut i: usize = 0;
    while i < f.len()
        invariant
            i <= f@.len(),
            forall|k: int| 0 <= k < i ==> is_digit(#[trigger] f@[k]),
            value == decimal(f@.subrange(0, i as int)),
            value <= max,
        decreases f@.len() - i,
    {
        let b = f[i];
        if b < 48 || b > 57 {
            return None;
        }
        proof {
            assert(f@.subrange(0, i as int + 1).drop_last() =~= f@.subrange(0, i as int));
        }
        let next = value * 10 + (b - 48) as u64;
        if next > max as u64 {
            proof {
                if forall|k: int| 0 <= k < f@.len() ==> is_digit(#[trigger] f@[k]) {
                    lemma_decimal_grows(f@, i as int + 1);
                }
            }
            return None;
        }
        value = next;
        i = i + 1;
    }
    assert(f@.subrange(0, i as int) =~= f@);
    Some(value as u32)
}

/// The transport named by `f`: "taxi", "bus", "underground" or "water".
pub open spec fn spec_mode(f: Seq<u8>) -> Option<StationType> {
    if f == seq![116u8, 97, 120, 105] {
        Some(StationType::Taxi)
    } else if f == seq![98u8, 117, 115] {
        Some(StationType::Bus)
    } else if f == seq![117u8, 110, 100, 101, 114, 103, 114, 111, 117, 110, 100] {
        Some(StationType::Underground)
    } else if f == seq![119u8, 97, 116, 101, 114] {
        Some(StationType::Water)
    } else {
        None
    }
}

fn equals(f: &Vec<u8>, word: &[u8]) -> (r: bool)
    ensures
        r == (f@ == word@),
{
    if f.len() != word.len() {
        return false;
    }
    let mut i: usize = 0;
    while i < f.len()
        invariant
            f@.len() == word@.len(),
            i <= f@.len(),
            forall|k: int| 0 <= k < i ==> f@[k] == word@[k],
        decreases f@.len() - i,
    {
        if f[i] != word[i] {
            return false;
        }
        i = i + 1;
    }
    assert(f@ =~= word@);
    true
}

/// Reads a transport name.
pub fn parse_mode(f: &Vec<u8>) -> (r: Option<StationType>)
    ensures
        r == spec_mode(f@),
{
    let taxi: [u8; 4] = [116, 97, 120, 105];
    let bus: [u8; 3] = [98, 117, 115];
    let underground: [u8; 11] = [117, 110, 100, 101, 114, 103, 114, 111, 117, 110, 100];
    let water: [u8; 5] = [119, 97, 116, 101, 114];
    assert(taxi@ =~= seq![116u8, 97, 120, 105]);
    assert(bus@ =~= seq![98u8, 117, 115]);
    assert(underground@ =~= seq![117u8, 110, 100, 101, 114, 103, 114, 111, 117, 110, 100]);
    assert(water@ =~= seq![119u8, 97, 116, 101, 114]);
    if equals(f, taxi.as_slice()) {
        Some(StationType::Taxi)
    } else if equals(f, bus.as_slice()) {
        Some(StationType::Bus)
    } else if equals(f, underground.as_slice()) {
        Some(StationType::Underground)
    } else if equals(f, water.as_slice()) {
        Some(StationType::Water)
    } else {
        None
    }
}

/// The edge a line `from to mode` describes, if it is one.
pub open spec fn spec_connection_line(line: Seq<u8>) -> Option<Connection> {
    let f = split(line, 32);
    if f.len() == 3 && number_in(f[0], 255) && number_in(f[1], 255) && spec_mode(f[2]) is Some {
        Some(
            Connection {
                from: decimal(f[0]) as u8,
                to: decimal(f[1]) as u8,
                mode: spec_mode(f[2])->0,
            },
        )
    } else {
        None
    }
}

/// Reads one line `from to mode` of an edge list.
pub fn parse_connection_line(line: &Vec<u8>) -> (r: Option<Connection>)
    ensures
        r == spec_connection_line(line@),
{
    let f = split_bytes(line.as_slice(), 32);
    assert(pieces_view(f@).len() == f@.len());
    if f.len() != 3 {
        return None;
    }
    assert(f@[0]@ == split(line@, 32)[0]);
    assert(f@[1]@ == split(line@, 32)[1]);
    assert(f@[2]@ == split(line@, 32)[2]);
    let from = match parse_number(&f[0], 255) {
        Some(v) => v,
        None => return None,
    };
    let to = match parse_number(&f[1], 255) {
        Some(v) => v,
        None => return None,
    };
    let mode = match parse_mode(&f[2]) {
        Some(m) => m,
        None => return None,
    };
    Some(Connection { from: from as u8, to: to as u8, mode })
}

/// The edges that the lines `lines` describe, blank lines skipped; `None`
/// if any other line is not an edge.
pub open spec fn spec_connection_lines(lines: Seq<Seq<u8>>) -> Option<Seq<Connection>>
    decreases lines.len(),
{
    if lines.len() == 0 {
        Some(seq![])
    } else {
        match spec_connection_lines(lines.drop_last()) {
            None => None,
            Some(prev) => if lines.last().len() == 0 {
                Some(prev)
            } else {
                match spec_connection_line(lines.last()) {
                    Some(c) => Some(prev.push(c)),
                    None => None,
                }
            },
        }
    }
}

/// Reads an edge list: one `from to mode` per line, as in
/// `104 110 taxi`; `None` if a line that is not blank is not an edge.
pub fn parse_connections(text: &[u8]) -> (r: Option<Vec<Connection>>)
    ensures
        match spec_connection_lines(split(text@, 10)) {
            Some(v) => r matches Some(w) && w@ == v,
            None => r is None,
        },
{
    let lines = split_bytes(text, 10);
    let ghost all = pieces_view(lines@);
    let mut r: Vec<Connection> = Vec::new();
    let mut i: usize = 0;
    while i < lines.len()
        invariant
            i <= lines@.len(),
            all == pieces_view(lines@),
            all == split(text@, 10),
            spec_connection_lines(all.subrange(0, i as int)) == Some(r@),
        decreases lines@.len() - i,
    {
        proof {
            assert(all.subrange(0, i as int + 1).drop_last() =~= all.subrange(0, i as int));
            assert(all.subrange(0, i as int + 1).last() == lines@[i as int]@);
        }
        if lines[i].len() > 0 {
            match parse_connection_line(&lines[i]) {
                Some(c) => {
                    r.push(c);
                },
                None => {
                    proof {
                        lemma_connection_lines_fail(all, i as int + 1);
                    }
                    return None;
                },
            }
        }
        i = i + 1;
    }
    assert(all.subrange(0, i as int) =~= all);
    Some(r)
}

proof fn lemma_connection_lines_fail(lines: Seq<Seq<u8>>, j: int)
    requires
        0 <= j <= lines.len(),
        spec_connection_lines(lines.subrange(0, j)) is None,
    ensures
        spec_connection_lines(lines) is None,
    decreases lines.len() - j,
{
    if j < lines.len() {
        assert(lines.subrange(0, j + 1).drop_last() =~= lines.subrange(0, j));
        lemma_connection_lines_fail(lines, j + 1);
    } else {
        assert(lines.subrange(0, j) =~= lines);
    }
}

/// A station type named by `f`: a transport other than water.
pub open spec fn spec_station_type(f: Seq<u8>) -> Option<StationType> {
    match spec_mode(f) {
        Some(StationType::Water) => None,
        m => m,
    }
}

/// The station types named by the pieces `fs`; `None` if one is not a
/// station type.
pub open spec fn spec_types(fs: Seq<Seq<u8>>) -> Option<Seq<StationType>>
    decreases fs.len(),
{
    if fs.len() == 0 {
        Some(seq![])
    } else {
        match (spec_types(fs.drop_last()), spec_station_type(fs.last())) {
            (Some(prev), Some(t)) => Some(prev.push(t)),
            _ => None,
        }
    }
}

/// A station as plain values: id, position, types.
pub open spec fn station_view(s: Station) -> (u8, u32, u32, Seq<StationType>) {
    (s.id, s.pos_x, s.pos_y, s.types@)
}

/// The station a line `id x y type,type,...` describes, if it is one.
pub open spec fn spec_station_line(line: Seq<u8>) -> Option<(u8, u32, u32, Seq<StationType>)> {
    let f = split(line, 32);
    if f.len() == 4 && number_in(f[0], 255) && number_in(f[1], u32::MAX as nat) && number_in(
        f[2],
        u32::MAX as nat,
    ) && spec_types(split(f[3], 44)) is Some {
        Some(
            (
                decimal(f[0]) as u8,
                decimal(f[1]) as u32,
                decimal(f[2]) as u32,
                spec_types(split(f[3], 44))->0,
            ),
        )
    } else {
        None
    }
}

fn parse_types(f: &Vec<u8>) -> (r: Option<Vec<StationType>>)
    ensures
        match spec_types(split(f@, 44)) {
            Some(v) => r matches Some(w) && w@ == v,
            None => r is None,
        },
{
    let parts = split_bytes(f.as_slice(), 44);
    let ghost all = pieces_view(parts@);
    let mut r: Vec<StationType> = Vec::new();
    let mut i: usize = 0;
    while i < parts.len()
        invariant
            i <= parts@.len(),
            all == pieces_view(parts@),
            all == split(f@, 44),
            spec_types(all.subrange(0, i as int)) == Some(r@),
        decreases parts@.len() - i,
    {
        proof {
            assert(all.subrange(0, i as int + 1).drop_last() =~= all.subrange(0, i as int));
            assert(all.subrange(0, i as int + 1).last() == parts@[i as int]@);
        }
        match parse_mode(&parts[i]) {
            Some(StationType::Water) | None => {
                proof {
                    lemma_types_fail(all, i as int + 1);
                }
                return None;
            },
            Some(t) => {
                r.push(t);
            },
        }
        i = i + 1;
    }
    assert(all.subrange(0, i as int) =~= all);
    Some(r)
}

proof fn lemma_types_fail(fs: Seq<Seq<u8>>, j: int)
    requires
        0 <= j <= fs.len(),
        spec_types(fs.subrange(0, j)) is None,
    ensures
        spec_types(fs) is None,
    decreases fs.len() - j,
{
    if j < fs.len() {
        assert(fs.subrange(0, j + 1).drop_last() =~= fs.subrange(0, j));
        lemma_types_fail(fs, j + 1);
    } else {
        assert(fs.subrange(0, j) =~= fs);
    }
}

/// Reads one line `id x y type,type,...` of a station list.
pub fn parse_station_line(line: &Vec<u8>) -> (r: Option<Station>)
    ensures
        match spec_station_line(line@) {
            Some(v) => r matches Some(s) && station_view(s) == v,
            None => r is None,
        },
{
    let f = split_bytes(line.as_slice(), 32);
    assert(pieces_view(f@).len() == f@.len());
    if f.len() != 4 {
        return None;
    }
    assert(f@[0]@ == split(line@, 32)[0]);
    assert(f@[1]@ == split(line@, 32)[1]);
    assert(f@[2]@ == split(line@, 32)[2]);
    assert(f@[3]@ == split(line@, 32)[3]);
    let id = match parse_number(&f[0], 255) {
        Some(v) => v,
        None => return None,
    };
    let x = match parse_number(&f[1], u32::MAX) {
        Some(v) => v,
        None => return None,
    };
    let y = match parse_number(&f[2], u32::MAX) {
        Some(v) => v,
        None => return None,
    };
    let types = match parse_types(&f[3]) {
        Some(t) => t,
        None => return None,
    };
    Some(Station { id: id as u8, pos_x: x, pos_y: y, types })
}

/// The stations that the lines `lines` describe, blank lines skipped;
/// `None` if any other line is not a station.
pub open spec fn spec_station_lines(lines: Seq<Seq<u8>>) -> Option<
    Seq<(u8, u32, u32, Seq<StationType>)>,
>
    decreases lines.len(),
{
    if lines.len() == 0 {
        Some(seq![])
    } else {
        match spec_station_lines(lines.drop_last()) {
            None => None,
            Some(prev) => if lines.last().len() == 0 {
                Some(prev)
            } else {
                match spec_station_line(lines.last()) {
                    Some(s) => Some(prev.push(s)),
                    None => None,
                }
            },
        }
    }
}

proof fn lemma_station_lines_fail(lines: Seq<Seq<u8>>, j: int)
    requires
        0 <= j <= lines.len(),
        spec_station_lines(lines.subrange(0, j)) is None,
    ensures
        spec_station_lines(lines) is None,
    decreases lines.len() - j,
{
    if j < lines.len() {
        assert(lines.subrange(0, j + 1).drop_last() =~= lines.subrange(0, j));
        lemma_station_lines_fail(lines, j + 1);
    } else {
        assert(lines.subrange(0, j) =~= lines);
    }
}

/// Reads a station list: one `id x y type,type,...` per line, as in
/// `1 100 200 taxi,bus`; `None` if a line that is not blank is not a
/// station.
pub fn parse_stations(text: &[u8]) -> (r: Option<Vec<Station>>)
    ensures
        match spec_station_lines(split(text@, 10)) {
            Some(v) => r matches Some(w) && w@.map_values(|s: Station| station_view(s)) == v,
            None => r is None,
        },
{
    let lines = split_bytes(text, 10);
    let ghost all = pieces_view(lines@);
    let mut r: Vec<Station> = Vec::new();
    let mut i: usize = 0;
    while i < lines.len()
        invariant
            i <= lines@.len(),
            all == pieces_view(lines@),
            all == split(text@, 10),
            spec_station_lines(all.subrange(0, i as int)) == Some(
                r@.map_values(|s: Station| station_view(s)),
            ),
        decreases lines@.len() - i,
    {
        proof {
            assert(all.subrange(0, i as int + 1).drop_last() =~= all.subrange(0, i as int));
            assert(all.subrange(0, i as int + 1).last() == lines@[i as int]@);
        }
        if lines[i].len() > 0 {
            match parse_station_line(&lines[i]) {
                Some(s) => {
                    proof {
                        assert(r@.push(s).map_values(|s: Station| station_view(s)) =~= r@.map_values(
                            |s: Station| station_view(s),
                        ).push(station_view(s)));
                    }
                    r.push(s);
                },
                None => {
                    proof {
                        lemma_station_lines_fail(all, i as int + 1);
                    }
                    return None;
                },
            }
        }
        i = i + 1;
    }
    assert(all.subrange(0, i as int) =~= all);
    Some(r)
}

} // verus!
