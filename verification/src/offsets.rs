//! The offset table: the game's structure offsets, read from a JSON object whose
//! values are hexadecimal strings.

use vstd::prelude::*;
use crate::hex::{hex_offset, parse_hex};

verus! {

/// Offsets into the game client and its entities.
#[derive(Clone, Copy, Debug, PartialEq, Eq, Structural)]
pub struct Offsets {
    pub dw_local_player_pawn: u64,
    pub dw_entity_list: u64,
    pub dw_global_vars: u64,
    pub m_i_health: u64,
    pub m_i_pawn_armor: u64,
    pub m_life_state: u64,
    pub m_ang_eye_angles: u64,
    pub m_i_team_num: u64,
    pub m_h_player_pawn: u64,
    pub m_v_old_origin: u64,
    pub m_i_comp_teammate_color: u64,
}

/// The entries of the offset table, in the order in which they are read.
#[derive(Clone, Copy, Debug, PartialEq, Eq, Structural)]
pub enum OffsetField {
    DwLocalPlayerPawn,
    DwEntityList,
    DwGlobalVars,
    MIHealth,
    MIPawnArmor,
    MLifeState,
    MAngEyeAngles,
    MITeamNum,
    MHPlayerPawn,
    MVOldOrigin,
    MICompTeammateColor,
}

/// Why an offset table was refused.
#[derive(Clone, Copy, Debug, PartialEq, Eq, Structural)]
pub enum OffsetsError {
    /// The text is not JSON.
    InvalidJson,
    /// The entry is missing, or its value is not a JSON string.
    NotAString(OffsetField),
    /// The entry's string is not a hexadecimal offset.
    NotHex(OffsetField),
}

/// The JSON key of each entry.
pub open spec fn field_key(f: OffsetField) -> Seq<char> {
    match f {
        OffsetField::DwLocalPlayerPawn => "dwLocalPlayerPawn"@,
        OffsetField::DwEntityList => "dwEntityList"@,
        OffsetField::DwGlobalVars => "dwGlobalVars"@,
        OffsetField::MIHealth => "m_iHealth"@,
        OffsetField::MIPawnArmor => "m_iPawnArmor"@,
        OffsetField::MLifeState => "m_lifeState"@,
        OffsetField::MAngEyeAngles => "m_angEyeAngles"@,
        OffsetField::MITeamNum => "m_iTeamNum"@,
        OffsetField::MHPlayerPawn => "m_hPlayerPawn"@,
        OffsetField::MVOldOrigin => "m_vOldOrigin"@,
        OffsetField::MICompTeammateColor => "m_iCompTeammateColor"@,
    }
}

/// The entry read in position `i` (`0 <= i < 11`).
pub open spec fn field_at(i: nat) -> OffsetField {
    if i == 0 {
        OffsetField::DwLocalPlayerPawn
    } else if i == 1 {
        OffsetField::DwEntityList
    } else if i == 2 {
        OffsetField::DwGlobalVars
    } else if i == 3 {
        OffsetField::MIHealth
    } else if i == 4 {
        OffsetField::MIPawnArmor
    } else if i == 5 {
        OffsetField::MLifeState
    } else if i == 6 {
        OffsetField::MAngEyeAngles
    } else if i == 7 {
        OffsetField::MITeamNum
    } else if i == 8 {
        OffsetField::MHPlayerPawn
    } else if i == 9 {
        OffsetField::MVOldOrigin
    } else {
        OffsetField::MICompTeammateColor
    }
}

impl OffsetField {
    /// The JSON key of this entry.
    pub fn key(&self) -> (k: &'static str)
        ensures
            k@ == field_key(*self),
    {
        match self {
            OffsetField::DwLocalPlayerPawn => "dwLocalPlayerPawn",
            OffsetField::DwEntityList => "dwEntityList",
            OffsetField::DwGlobalVars => "dwGlobalVars",
            OffsetField::MIHealth => "m_iHealth",
            OffsetField::MIPawnArmor => "m_iPawnArmor",
            OffsetField::MLifeState => "m_lifeState",
            OffsetField::MAngEyeAngles => "m_angEyeAngles",
            OffsetField::MITeamNum => "m_iTeamNum",
            OffsetField::MHPlayerPawn => "m_hPlayerPawn",
            OffsetField::MVOldOrigin => "m_vOldOrigin",
            OffsetField::MICompTeammateColor => "m_iCompTeammateColor",
        }
    }
}

/// The top-level entries of a JSON document, as serde_json reads it into a
/// `serde_json::Value`: `None` when the text is not JSON; otherwise each key of
/// a top-level object with its value's text where that value is a JSON string
/// (no entries when the document is not an object).
pub uninterp spec fn json_string_fields_of(text: Seq<char>) -> Option<
    Seq<(Seq<char>, Option<Seq<char>>)>,
>;

/// Calls `serde_json::from_str::<serde_json::Value>` and lists the top-level
/// entries of the value. Trusted: the result is the named
/// `json_string_fields_of` of the text; nothing more about it is stated.
#[verifier::external_body]
fn json_string_fields(text: &str) -> (r: Option<Vec<(String, Option<String>)>>)
    ensures
        r.deep_view() == json_string_fields_of(text@),
{
    match serde_json::from_str::<serde_json::Value>(text) {
        Ok(serde_json::Value::Object(map)) => {
            let mut out = Vec::new();
            for (k, v) in map.iter() {
                let text = match v {
                    serde_json::Value::String(t) => Some(t.clone()),
                    _ => None,
                };
                out.push((k.clone(), text));
            }
            Some(out)
        },
        Ok(_) => Some(Vec::new()),
        Err(_) => None,
    }
}

/// The text of the first entry keyed `key`, if that entry holds a JSON string.
pub open spec fn string_field(fields: Seq<(Seq<char>, Option<Seq<char>>)>, key: Seq<char>) -> Option<
    Seq<char>,
>
    decreases fields.len(),
{
    if fields.len() == 0 {
        None
    } else if fields[0].0 == key {
        fields[0].1
    } else {
        string_field(fields.skip(1), key)
    }
}

/// The value of one entry of the table, or why it is refused.
pub open spec fn offset_field(fields: Seq<(Seq<char>, Option<Seq<char>>)>, f: OffsetField) -> Result<
    u64,
    OffsetsError,
> {
    match string_field(fields, field_key(f)) {
        None => Err(OffsetsError::NotAString(f)),
        Some(t) => match hex_offset(t) {
            None => Err(OffsetsError::NotHex(f)),
            Some(v) => Ok(v),
        },
    }
}

/// The error of the first entry, from position `i` on, that is refused.
pub open spec fn first_bad_field(fields: Seq<(Seq<char>, Option<Seq<char>>)>, i: nat) -> Option<
    OffsetsError,
>
    decreases 11 - i,
{
    if i >= 11 {
        None
    } else {
        match offset_field(fields, field_at(i)) {
            Err(e) => Some(e),
            Ok(_) => first_bad_field(fields, i + 1),
        }
    }
}

pub open spec fn field_value(fields: Seq<(Seq<char>, Option<Seq<char>>)>, f: OffsetField) -> u64 {
    match offset_field(fields, f) {
        Ok(v) => v,
        Err(_) => 0,
    }
}

/// The offset table made of the entries `fields`: the error of the first entry
/// that is refused, in table order, or every entry's value.
pub open spec fn offsets_of_fields(fields: Seq<(Seq<char>, Option<Seq<char>>)>) -> Result<
    Offsets,
    OffsetsError,
> {
    match first_bad_field(fields, 0) {
        Some(e) => Err(e),
        None => Ok(
            Offsets {
                dw_local_player_pawn: field_value(fields, OffsetField::DwLocalPlayerPawn),
                dw_entity_list: field_value(fields, OffsetField::DwEntityList),
                dw_global_vars: field_value(fields, OffsetField::DwGlobalVars),
                m_i_health: field_value(fields, OffsetField::MIHealth),
                m_i_pawn_armor: field_value(fields, OffsetField::MIPawnArmor),
                m_life_state: field_value(fields, OffsetField::MLifeState),
                m_ang_eye_angles: field_value(fields, OffsetField::MAngEyeAngles),
                m_i_team_num: field_value(fields, OffsetField::MITeamNum),
                m_h_player_pawn: field_value(fields, OffsetField::MHPlayerPawn),
                m_v_old_origin: field_value(fields, OffsetField::MVOldOrigin),
                m_i_comp_teammate_color: field_value(fields, OffsetField::MICompTeammateColor),
            },
        ),
    }
}

/// The offset table that the JSON text `text` holds.
pub open spec fn offsets_of_json(text: Seq<char>) -> Result<Offsets, OffsetsError> {
    match json_string_fields_of(text) {
        None => Err(OffsetsError::InvalidJson),
        Some(fields) => offsets_of_fields(fields),
    }
}

/// Finds the text of the first entry keyed `key`, if it holds a JSON string.
pub fn find_string_field<'a>(fields: &'a Vec<(String, Option<String>)>, key: &str) -> (r: Option<&'a String>)
    ensures
        match r {
            Some(t) => string_field(fields.deep_view(), key@) == Some(t@),
            None => string_field(fields.deep_view(), key@) is None,
        },
{
    let ghost fv = fields.deep_view();
    let wanted = String::from_str(key);
    let mut i: usize = 0;
    proof {
        assert(fv.skip(0) =~= fv);
    }
    while i < fields.len()
        invariant
            fv == fields.deep_view(),
            wanted@ == key@,
            i <= fields@.len(),
            string_field(fv, key@) == string_field(fv.skip(i as int), key@),
        decreases fields@.len() - i,
    {
        proof {
            assert(fv.skip(i as int)[0] == fv[i as int]);
            assert(fv[i as int] == (fields@[i as int].0@, fields@[i as int].1.deep_view()));
            assert(fv.skip(i as int).skip(1) =~= fv.skip(i + 1));
        }
        if fields[i].0 == wanted {
            return match &fields[i].1 {
                Some(t) => Some(t),
                None => None,
            };
        }
        i = i + 1;
    }
    proof {
        assert(fv.skip(i as int).len() == 0);
    }
    None
}

/// Reads one entry of the table.
pub fn read_offset(fields: &Vec<(String, Option<String>)>, f: OffsetField) -> (r: Result<u64, OffsetsError>)
    ensures
        r == offset_field(fields.deep_view(), f),
{
    match find_string_field(fields, f.key()) {
        None => Err(OffsetsError::NotAString(f)),
        Some(t) => match parse_hex(t.as_str()) {
            None => Err(OffsetsError::NotHex(f)),
            Some(v) => Ok(v),
        },
    }
}

impl Offsets {
    /// Builds the table from its entries: fails with the error of the first
    /// refused entry, in table order.
    pub fn from_fields(fields: &Vec<(String, Option<String>)>) -> (r: Result<Offsets, OffsetsError>)
        ensures
            r == offsets_of_fields(fields.deep_view()),
    {
        let ghost fv = fields.deep_view();
        proof {
            reveal_with_fuel(first_bad_field, 12);
        }
        let dw_local_player_pawn = read_offset(fields, OffsetField::DwLocalPlayerPawn)?;
        let dw_entity_list = read_offset(fields, OffsetField::DwEntityList)?;
        let dw_global_vars = read_offset(fields, OffsetField::DwGlobalVars)?;
        let m_i_health = read_offset(fields, OffsetField::MIHealth)?;
        let m_i_pawn_armor = read_offset(fields, OffsetField::MIPawnArmor)?;
        let m_life_state = read_offset(fields, OffsetField::MLifeState)?;
        let m_ang_eye_angles = read_offset(fields, OffsetField::MAngEyeAngles)?;
        let m_i_team_num = read_offset(fields, OffsetField::MITeamNum)?;
        let m_h_player_pawn = read_offset(fields, OffsetField::MHPlayerPawn)?;
        let m_v_old_origin = read_offset(fields, OffsetField::MVOldOrigin)?;
        let m_i_comp_teammate_color = read_offset(fields, OffsetField::MICompTeammateColor)?;
        Ok(
            Offsets {
                dw_local_player_pawn,
                dw_entity_list,
                dw_global_vars,
                m_i_health,
                m_i_pawn_armor,
                m_life_state,
                m_ang_eye_angles,
                m_i_team_num,
                m_h_player_pawn,
                m_v_old_origin,
                m_i_comp_teammate_color,
            },
        )
    }

    /// Reads the offset table from the text of a JSON document.
    pub fn from_json_str(text: &str) -> (r: Result<Offsets, OffsetsError>)
        ensures
            r == offsets_of_json(text@),
    {
        match json_string_fields(text) {
            None => Err(OffsetsError::InvalidJson),
            Some(fields) => Offsets::from_fields(&fields),
        }
    }
}

// ---- laws -----------------------------------------------------------------

/// The value of entry `f` in a table.
pub open spec fn offsets_get(o: Offsets, f: OffsetField) -> u64 {
    match f {
        OffsetField::DwLocalPlayerPawn => o.dw_local_player_pawn,
        OffsetField::DwEntityList => o.dw_entity_list,
        OffsetField::DwGlobalVars => o.dw_global_vars,
        OffsetField::MIHealth => o.m_i_health,
        OffsetField::MIPawnArmor => o.m_i_pawn_armor,
        OffsetField::MLifeState => o.m_life_state,
        OffsetField::MAngEyeAngles => o.m_ang_eye_angles,
        OffsetField::MITeamNum => o.m_i_team_num,
        OffsetField::MHPlayerPawn => o.m_h_player_pawn,
        OffsetField::MVOldOrigin => o.m_v_old_origin,
        OffsetField::MICompTeammateColor => o.m_i_comp_teammate_color,
    }
}

/// The first entry of a key is the one read; entries of other keys, and
/// entries after one of the key, change nothing.
pub proof fn lemma_string_field_first_wins(
    fields: Seq<(Seq<char>, Option<Seq<char>>)>,
    more: Seq<(Seq<char>, Option<Seq<char>>)>,
    k: Seq<char>,
    v: Option<Seq<char>>,
    key: Seq<char>,
)
    ensures
        string_field(seq![(k, v)] + fields, k) == v,
        key != k ==> string_field(seq![(k, v)] + fields, key) == string_field(fields, key),
        key != k ==> string_field(fields.push((k, v)), key) == string_field(fields, key),
        (exists|i: int| 0 <= i < fields.len() && #[trigger] fields[i].0 == key) ==> string_field(
            fields + more,
            key,
        ) == string_field(fields, key),
{
    let f1 = seq![(k, v)] + fields;
    assert(f1.skip(1) =~= fields);
    assert(f1[0] == (k, v));
    if key != k {
        lemma_string_field_push(fields, k, v, key);
    }
    if exists|i: int| 0 <= i < fields.len() && #[trigger] fields[i].0 == key {
        let i = choose|i: int| 0 <= i < fields.len() && #[trigger] fields[i].0 == key;
        lemma_string_field_append(fields, more, key, i);
    }
}

proof fn lemma_string_field_push(
    fields: Seq<(Seq<char>, Option<Seq<char>>)>,
    k: Seq<char>,
    v: Option<Seq<char>>,
    key: Seq<char>,
)
    requires
        key != k,
    ensures
        string_field(fields.push((k, v)), key) == string_field(fields, key),
    decreases fields.len(),
{
    let g = fields.push((k, v));
    if fields.len() > 0 {
        assert(g[0] == fields[0]);
        assert(g.skip(1) =~= fields.skip(1).push((k, v)));
        lemma_string_field_push(fields.skip(1), k, v, key);
        if fields[0].0 == key {
            assert(string_field(g, key) == g[0].1);
        } else {
            assert(string_field(g, key) == string_field(g.skip(1), key));
        }
    } else {
        assert(g[0] == (k, v));
        assert(g[0].0 != key);
        assert(g.skip(1).len() == 0);
        assert(string_field(g.skip(1), key) is None);
        assert(string_field(g, key) == string_field(g.skip(1), key));
    }
}

proof fn lemma_string_field_append(
    fields: Seq<(Seq<char>, Option<Seq<char>>)>,
    more: Seq<(Seq<char>, Option<Seq<char>>)>,
    key: Seq<char>,
    i: int,
)
    requires
        0 <= i < fields.len(),
        fields[i].0 == key,
    ensures
        string_field(fields + more, key) == string_field(fields, key),
    decreases fields.len(),
{
    let g = fields + more;
    assert(g[0] == fields[0]);
    if fields[0].0 != key {
        assert(g.skip(1) =~= fields.skip(1) + more);
        assert(fields.skip(1)[i - 1] == fields[i]);
        lemma_string_field_append(fields.skip(1), more, key, i - 1);
    }
}

proof fn lemma_first_bad_index(fields: Seq<(Seq<char>, Option<Seq<char>>)>, i: nat) -> (k: nat)
    requires
        i <= 11,
        forall|j: nat| j < i ==> #[trigger] offset_field(fields, field_at(j)) is Ok,
        first_bad_field(fields, i) is Some,
    ensures
        i <= k < 11,
        forall|j: nat| j < k ==> #[trigger] offset_field(fields, field_at(j)) is Ok,
        offset_field(fields, field_at(k)) == Err::<u64, OffsetsError>(first_bad_field(fields, i)->0),
    decreases 11 - i,
{
    if offset_field(fields, field_at(i)) is Ok {
        lemma_first_bad_index(fields, i + 1)
    } else {
        i
    }
}

proof fn lemma_no_bad_field(fields: Seq<(Seq<char>, Option<Seq<char>>)>, i: nat)
    requires
        i <= 11,
        first_bad_field(fields, i) is None,
    ensures
        forall|j: nat| i <= j < 11 ==> #[trigger] offset_field(fields, field_at(j)) is Ok,
    decreases 11 - i,
{
    if i < 11 {
        lemma_no_bad_field(fields, i + 1);
    }
}

proof fn lemma_ok_field(fields: Seq<(Seq<char>, Option<Seq<char>>)>, o: Offsets, j: nat)
    requires
        j < 11,
        offsets_of_fields(fields) == Ok::<Offsets, OffsetsError>(o),
    ensures
        string_field(fields, field_key(field_at(j))) matches Some(t) && hex_offset(t) == Some(
            offsets_get(o, field_at(j)),
        ),
{
    lemma_no_bad_field(fields, 0);
    assert(offset_field(fields, field_at(j)) is Ok);
}

/// An accepted table holds, for every entry, the hexadecimal value of the
/// string of the first JSON entry with its key.
pub proof fn lemma_offsets_accepted(fields: Seq<(Seq<char>, Option<Seq<char>>)>, f: OffsetField)
    ensures
        offsets_of_fields(fields) matches Ok(o) ==> (string_field(fields, field_key(f)) matches Some(
            t,
        ) && hex_offset(t) == Some(offsets_get(o, f))),
{
    if let Ok(o) = offsets_of_fields(fields) {
        let j: nat = match f {
            OffsetField::DwLocalPlayerPawn => 0,
            OffsetField::DwEntityList => 1,
            OffsetField::DwGlobalVars => 2,
            OffsetField::MIHealth => 3,
            OffsetField::MIPawnArmor => 4,
            OffsetField::MLifeState => 5,
            OffsetField::MAngEyeAngles => 6,
            OffsetField::MITeamNum => 7,
            OffsetField::MHPlayerPawn => 8,
            OffsetField::MVOldOrigin => 9,
            OffsetField::MICompTeammateColor => 10,
        };
        assert(field_at(j) == f);
        lemma_ok_field(fields, o, j);
    }
}

/// A refused table names an entry; every entry before it in table order is
/// well formed, and that entry is missing (or no string) or no hexadecimal
/// offset.
pub proof fn lemma_offsets_refused(fields: Seq<(Seq<char>, Option<Seq<char>>)>)
    ensures
        offsets_of_fields(fields) matches Err(e) ==> exists|i: nat|
            #![trigger field_at(i)]
            i < 11 && (forall|j: nat| j < i ==> #[trigger] offset_field(fields, field_at(j)) is Ok)
                && (match e {
                OffsetsError::NotAString(f) => f == field_at(i) && string_field(fields, field_key(f))
                    is None,
                OffsetsError::NotHex(f) => f == field_at(i) && (string_field(fields, field_key(f))
                    matches Some(t) && hex_offset(t) is None),
                OffsetsError::InvalidJson => false,
            }),
{
    if let Err(e) = offsets_of_fields(fields) {
        assert(first_bad_field(fields, 0) == Some(e));
        let k = lemma_first_bad_index(fields, 0);
        let f = field_at(k);
        assert(offset_field(fields, f) == Err::<u64, OffsetsError>(e));
        match string_field(fields, field_key(f)) {
            None => assert(e == OffsetsError::NotAString(f)),
            Some(t) => {
                assert(hex_offset(t) is None);
                assert(e == OffsetsError::NotHex(f));
            },
        }
    }
}

} // verus!