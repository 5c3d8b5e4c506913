use vstd::prelude::*;
use vstd::string::*;
use crate::json::{Json, parse_json, parsed_json};

verus! {

/// Why a generator's output could not be decoded into a room.
#[derive(Clone, Copy, Debug, PartialEq, Eq, Structural)]
pub enum DecodeError {
    /// The text is not one well-formed JSON document.
    ParseError,
    /// The document is not an object with at least one member.
    ShapeError,
    /// The first member does not hold `layers.terrain` as a grid of one-character strings.
    SchemaError,
}

/// One decoded generator result: a row-major grid of cell symbols.
///
/// Rows may differ in length.
#[derive(Debug)]
pub struct Room {
    pub terrain: Vec<Vec<char>>,
}

impl View for Room {
    type V = Seq<Seq<char>>;

    open spec fn view(&self) -> Seq<Seq<char>> {
        Seq::new(self.terrain@.len(), |y: int| self.terrain@[y]@)
    }
}

/// `i` is the position of the first member named `key`.
pub open spec fn first_named(members: Seq<(String, Json)>, key: Seq<char>, i: int) -> bool {
    &&& 0 <= i < members.len()
    &&& members[i].0@ == key
    &&& forall|j: int| 0 <= j < i ==> members[j].0@ != key
}

/// The value of the first member named `key`, if there is one.
pub open spec fn member(members: Seq<(String, Json)>, key: Seq<char>) -> Option<Json> {
    if exists|i: int| first_named(members, key, i) {
        Some(members[choose|i: int| first_named(members, key, i)].1)
    } else {
        None
    }
}

/// The symbol a cell holds: a string of exactly one character.
pub open spec fn cell_symbol(cell: Json) -> Option<char> {
    match cell {
        Json::Str(s) => if s@.len() == 1 {
            Some(s@[0])
        } else {
            None
        },
        _ => None,
    }
}

/// The symbols of a row: an array whose every element is a cell.
pub open spec fn row_symbols(row: Json) -> Option<Seq<char>> {
    match row {
        Json::Array(cells) => if forall|x: int|
            0 <= x < cells@.len() ==> (#[trigger] cell_symbol(cells@[x])) is Some {
            Some(Seq::new(cells@.len(), |x: int| cell_symbol(cells@[x])->0))
        } else {
            None
        },
        _ => None,
    }
}

/// The grid of a terrain: an array whose every element is a row.
pub open spec fn terrain_grid(terrain: Json) -> Option<Seq<Seq<char>>> {
    match terrain {
        Json::Array(rows) => if forall|y: int|
            0 <= y < rows@.len() ==> (#[trigger] row_symbols(rows@[y])) is Some {
            Some(Seq::new(rows@.len(), |y: int| row_symbols(rows@[y])->0))
        } else {
            None
        },
        _ => None,
    }
}

/// The grid of a room's content: an object whose `layers` member is an object
/// whose `terrain` member is a terrain. Other members are ignored.
pub open spec fn room_grid(content: Json) -> Option<Seq<Seq<char>>> {
    match content {
        Json::Object(fields) => match member(fields@, "layers"@) {
            Some(Json::Object(layers)) => match member(layers@, "terrain"@) {
                Some(terrain) => terrain_grid(terrain),
                None => None,
            },
            _ => None,
        },
        _ => None,
    }
}

/// The name and grid that a document decodes to: the first member of the
/// top-level object, whose value must be a room.
pub open spec fn decoded(doc: Json) -> Result<(Seq<char>, Seq<Seq<char>>), DecodeError> {
    match doc {
        Json::Object(members) => if members@.len() == 0 {
            Err(DecodeError::ShapeError)
        } else {
            match room_grid(members@[0].1) {
                Some(grid) => Ok((members@[0].0@, grid)),
                None => Err(DecodeError::SchemaError),
            }
        },
        _ => Err(DecodeError::ShapeError),
    }
}

/// What decoding a generator's text gives.
pub open spec fn decoded_text(text: Seq<char>) -> Result<(Seq<char>, Seq<Seq<char>>), DecodeError> {
    match parsed_json(text) {
        Some(doc) => decoded(doc),
        None => Err(DecodeError::ParseError),
    }
}

/// The mathematical value of a decoding result.
pub open spec fn result_view(r: Result<(String, Room), DecodeError>) -> Result<
    (Seq<char>, Seq<Seq<char>>),
    DecodeError,
> {
    match r {
        Ok((name, room)) => Ok((name@, room@)),
        Err(e) => Err(e),
    }
}

/// `terrain` is a JSON array of arrays of one-character strings that spells
/// out `grid` cell by cell.
pub open spec fn spells_grid(terrain: Json, grid: Seq<Seq<char>>) -> bool {
    match terrain {
        Json::Array(rows) => {
            &&& rows@.len() == grid.len()
            &&& forall|y: int|
                0 <= y < grid.len() ==> match #[trigger] rows@[y] {
                    Json::Array(cells) => {
                        &&& cells@.len() == grid[y].len()
                        &&& forall|x: int|
                            0 <= x < grid[y].len() ==> match #[trigger] cells@[x] {
                                Json::Str(s) => s@ == seq![grid[y][x]],
                                _ => false,
                            }
                    },
                    _ => false,
                }
        },
        _ => false,
    }
}

/// A document whose only member holds, under `layers.terrain`, a grid
/// spelled out as arrays of one-character strings decodes to that member's
/// name and exactly that grid.
pub proof fn lemma_decode_single_room(
    members: Vec<(String, Json)>,
    fields: Vec<(String, Json)>,
    layers: Vec<(String, Json)>,
    grid: Seq<Seq<char>>,
)
    requires
        members@.len() == 1,
        members@[0].1 == Json::Object(fields),
        member(fields@, "layers"@) == Some(Json::Object(layers)),
        member(layers@, "terrain"@) matches Some(terrain) && spells_grid(terrain, grid),
    ensures
        decoded(Json::Object(members)) == Ok::<(Seq<char>, Seq<Seq<char>>), DecodeError>(
            (members@[0].0@, grid),
        ),
{
    let terrain = member(layers@, "terrain"@)->0;
    let rows = terrain->Array_0;
    assert forall|y: int| 0 <= y < rows@.len() implies (#[trigger] row_symbols(rows@[y])) == Some(
        grid[y],
    ) by {
        let cells = rows@[y]->Array_0;
        assert forall|x: int| 0 <= x < cells@.len() implies (#[trigger] cell_symbol(cells@[x]))
            == Some(grid[y][x]) by {
            let s = cells@[x]->Str_0;
            assert(s@ == seq![grid[y][x]]);
        }
        assert(Seq::new(cells@.len(), |x: int| cell_symbol(cells@[x])->0) =~= grid[y]);
    }
    assert(Seq::new(rows@.len(), |y: int| row_symbols(rows@[y])->0) =~= grid);
}

/// Only the first member of a document is ever read: two documents whose
/// first members agree decode alike, whatever members follow.
pub proof fn lemma_first_member_decides(a: Vec<(String, Json)>, b: Vec<(String, Json)>)
    requires
        a@.len() > 0,
        b@.len() > 0,
        a@[0] == b@[0],
    ensures
        decoded(Json::Object(a)) == decoded(Json::Object(b)),
        decoded(Json::Object(a)) is Ok ==> decoded(Json::Object(a))->Ok_0.0 == a@[0].0@,
{
}

/// Finds the first member named `key`.
fn find_member(members: &Vec<(String, Json)>, key: &String) -> (r: Option<usize>)
    ensures
        match r {
            Some(i) => first_named(members@, key@, i as int),
            None => forall|i: int| 0 <= i < members@.len() ==> members@[i].0@ != key@,
        },
{
    let mut i: usize = 0;
    while i < members.len()
        invariant
            i <= members@.len(),
            forall|j: int| 0 <= j < i ==> members@[j].0@ != key@,
        decreases members@.len() - i,
    {
        if members[i].0 == *key {
            return Some(i);
        }
        i = i + 1;
    }
    None
}

/// Looks up the first member named `key`.
fn lookup<'a>(members: &'a Vec<(String, Json)>, key: &str) -> (r: Option<&'a Json>)
    ensures
        match r {
            Some(v) => member(members@, key@) == Some(*v),
            None => member(members@, key@) is None,
        },
{
    let name = key.to_owned();
    match find_member(members, &name) {
        Some(i) => {
            proof {
                let k = choose|k: int| first_named(members@, key@, k);
                assert(first_named(members@, key@, k));
                if k < i {
                    assert(members@[k].0@ != key@);
                } else if k > i {
                    assert(members@[i as int].0@ != key@);
                }
            }
            Some(&members[i].1)
        },
        None => {
            assert(!exists|i: int| first_named(members@, key@, i));
            None
        },
    }
}

/// Reads a row of one-character strings.
fn decode_row(row: &Json) -> (r: Option<Vec<char>>)
    ensures
        match r {
            Some(cells) => row_symbols(*row) == Some(cells@),
            None => row_symbols(*row) is None,
        },
{
    match row {
        Json::Array(cells) => {
            let mut out: Vec<char> = Vec::new();
            let mut x: usize = 0;
            while x < cells.len()
                invariant
                    *row == Json::Array(*cells),
                    x <= cells@.len(),
                    out@.len() == x,
                    forall|k: int| 0 <= k < x ==> (#[trigger] cell_symbol(cells@[k])) == Some(out@[k]),
                decreases cells@.len() - x,
            {
                match &cells[x] {
                    Json::Str(s) => {
                        let n = s.as_str().unicode_len();
                        if n != 1 {
                            assert(cell_symbol(cells@[x as int]) is None);
                            assert(row_symbols(*row) is None);
                            return None;
                        }
                        let c = s.as_str().get_char(0);
                        out.push(c);
                    },
                    _ => {
                        assert(cell_symbol(cells@[x as int]) is None);
                        assert(row_symbols(*row) is None);
                        return None;
                    },
                }
                x = x + 1;
            }
            assert(Seq::new(cells@.len(), |k: int| cell_symbol(cells@[k])->0) =~= out@);
            Some(out)
        },
        _ => None,
    }
}

/// Reads a terrain: an array of rows.
fn decode_terrain(terrain: &Json) -> (r: Option<Vec<Vec<char>>>)
    ensures
        match r {
            Some(grid) => terrain_grid(*terrain) == Some(Room { terrain: grid }@),
            None => terrain_grid(*terrain) is None,
        },
{
    match terrain {
        Json::Array(rows) => {
            let mut out: Vec<Vec<char>> = Vec::new();
            let mut y: usize = 0;
            while y < rows.len()
                invariant
                    *terrain == Json::Array(*rows),
                    y <= rows@.len(),
                    out@.len() == y,
                    forall|k: int| 0 <= k < y ==> (#[trigger] row_symbols(rows@[k])) == Some(out@[k]@),
                decreases rows@.len() - y,
            {
                match decode_row(&rows[y]) {
                    Some(row) => out.push(row),
                    None => {
                        assert(row_symbols(rows@[y as int]) is None);
                        assert(terrain_grid(*terrain) is None);
                        return None;
                    },
                }
                y = y + 1;
            }
            assert(Seq::new(rows@.len(), |k: int| row_symbols(rows@[k])->0) =~= Room {
                terrain: out,
            }@);
            Some(out)
        },
        _ => None,
    }
}

/// Decodes a room's content: `layers.terrain` must be a grid of one-character strings.
fn decode_room(content: &Json) -> (r: Option<Room>)
    ensures
        match r {
            Some(room) => room_grid(*content) == Some(room@),
            None => room_grid(*content) is None,
        },
{
    proof {
        reveal_strlit("layers");
        reveal_strlit("terrain");
    }
    match content {
        Json::Object(fields) => match lookup(fields, "layers") {
            Some(Json::Object(layers)) => match lookup(layers, "terrain") {
                Some(terrain) => match decode_terrain(terrain) {
                    Some(grid) => Some(Room { terrain: grid }),
                    None => None,
                },
                None => None,
            },
            _ => None,
        },
        _ => None,
    }
}

/// Decodes a parsed document into the name and room of its first member.
///
/// A document that is not an object, or an empty object, is a `ShapeError`; a
/// first member that is not a room is a `SchemaError`. Later members are
/// never read.
pub fn decode_document(doc: &Json) -> (r: Result<(String, Room), DecodeError>)
    ensures
        result_view(r) == decoded(*doc),
{
    match doc {
        Json::Object(members) => {
            if members.len() == 0 {
                return Err(DecodeError::ShapeError);
            }
            match decode_room(&members[0].1) {
                Some(room) => Ok((members[0].0.clone(), room)),
                None => Err(DecodeError::SchemaError),
            }
        },
        _ => Err(DecodeError::ShapeError),
    }
}

/// Decodes a generator's output text into a room name and its room.
///
/// Text that is not one JSON document is a `ParseError`; otherwise the result
/// is that of `decode_document` on the parsed document. serde_json's map
/// hands out members ordered by key, so of several top-level keys the least
/// one is taken, whatever their order in the text.
pub fn decode(text: &str) -> (r: Result<(String, Room), DecodeError>)
    ensures
        result_view(r) == decoded_text(text@),
{
    match parse_json(text) {
        Some(doc) => decode_document(&doc),
        None => Err(DecodeError::ParseError),
    }
}

} // verus!
