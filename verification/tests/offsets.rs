use cs2_radar::hex::parse_hex;
use cs2_radar::offsets::{OffsetField, Offsets, OffsetsError};

const TABLE: &str = r#"{
    "dwLocalPlayerPawn": "0x1824A18",
    "dwEntityList": "0x19BDD58",
    "dwGlobalVars": "0x1819620",
    "m_iHealth": "0x344",
    "m_iPawnArmor": "0x2404",
    "m_lifeState": "0x348",
    "m_angEyeAngles": "0x1388",
    "m_iTeamNum": "0x3E3",
    "m_hPlayerPawn": "0x80C",
    "m_vOldOrigin": "0x1324",
    "m_iCompTeammateColor": "0x738",
    "unused": 17
}"#;

#[test]
fn parses_a_full_table() {
    let o = Offsets::from_json_str(TABLE).unwrap();
    assert_eq!(
        o,
        Offsets {
            dw_local_player_pawn: 0x1824A18,
            dw_entity_list: 0x19BDD58,
            dw_global_vars: 0x1819620,
            m_i_health: 0x344,
            m_i_pawn_armor: 0x2404,
            m_life_state: 0x348,
            m_ang_eye_angles: 0x1388,
            m_i_team_num: 0x3E3,
            m_h_player_pawn: 0x80C,
            m_v_old_origin: 0x1324,
            m_i_comp_teammate_color: 0x738,
        }
    );
}

#[test]
fn text_that_is_not_json_is_refused() {
    assert_eq!(Offsets::from_json_str("{ nope"), Err(OffsetsError::InvalidJson));
}

#[test]
fn a_document_that_is_no_object_misses_the_first_entry() {
    assert_eq!(
        Offsets::from_json_str("[1, 2]"),
        Err(OffsetsError::NotAString(OffsetField::DwLocalPlayerPawn))
    );
}

#[test]
fn the_first_missing_entry_in_table_order_is_reported() {
    let text = TABLE.replace("\"m_iHealth\"", "\"m_iHealthX\"").replace("\"m_vOldOrigin\"", "\"x\"");
    assert_eq!(Offsets::from_json_str(&text), Err(OffsetsError::NotAString(OffsetField::MIHealth)));
}

#[test]
fn an_entry_that_is_no_string_is_refused() {
    let text = TABLE.replace("\"0x344\"", "836");
    assert_eq!(Offsets::from_json_str(&text), Err(OffsetsError::NotAString(OffsetField::MIHealth)));
}

#[test]
fn an_entry_that_is_no_hex_number_is_refused() {
    let text = TABLE.replace("\"0x80C\"", "\"0xZZ\"");
    assert_eq!(Offsets::from_json_str(&text), Err(OffsetsError::NotHex(OffsetField::MHPlayerPawn)));
}

#[test]
fn from_fields_reads_the_first_entry_of_a_key() {
    let mut fields: Vec<(String, Option<String>)> = Vec::new();
    let keys = [
        "dwLocalPlayerPawn",
        "dwEntityList",
        "dwGlobalVars",
        "m_iHealth",
        "m_iPawnArmor",
        "m_lifeState",
        "m_angEyeAngles",
        "m_iTeamNum",
        "m_hPlayerPawn",
        "m_vOldOrigin",
        "m_iCompTeammateColor",
    ];
    for (i, k) in keys.iter().enumerate() {
        fields.push((k.to_string(), Some(format!("0x{:x}", i + 1))));
    }
    fields.push(("dwGlobalVars".to_string(), Some("0xffff".to_string())));
    let o = Offsets::from_fields(&fields).unwrap();
    assert_eq!(o.dw_local_player_pawn, 1);
    assert_eq!(o.dw_global_vars, 3);
    assert_eq!(o.m_i_comp_teammate_color, 11);
    fields[4].1 = None;
    assert_eq!(Offsets::from_fields(&fields), Err(OffsetsError::NotAString(OffsetField::MIPawnArmor)));
}

#[test]
fn field_keys() {
    assert_eq!(OffsetField::DwLocalPlayerPawn.key(), "dwLocalPlayerPawn");
    assert_eq!(OffsetField::MICompTeammateColor.key(), "m_iCompTeammateColor");
    assert_eq!(OffsetField::MLifeState.key(), "m_lifeState");
}

#[test]
fn hex_offsets() {
    assert_eq!(parse_hex("0x1A"), Some(26));
    assert_eq!(parse_hex("1a"), Some(26));
    assert_eq!(parse_hex("0x0x10"), Some(16));
    assert_eq!(parse_hex("+ff"), Some(255));
    assert_eq!(parse_hex("0x+ff"), Some(255));
    assert_eq!(parse_hex("0"), Some(0));
    assert_eq!(parse_hex("00ff"), Some(255));
    assert_eq!(parse_hex("ffffffffffffffff"), Some(u64::MAX));
    assert_eq!(parse_hex("0000ffffffffffffffff"), Some(u64::MAX));
}

#[test]
fn hex_offsets_refused() {
    assert_eq!(parse_hex(""), None);
    assert_eq!(parse_hex("0x"), None);
    assert_eq!(parse_hex("+"), None);
    assert_eq!(parse_hex("-1"), None);
    assert_eq!(parse_hex("++1"), None);
    assert_eq!(parse_hex("0X10"), None);
    assert_eq!(parse_hex("xyz"), None);
    assert_eq!(parse_hex("1 "), None);
    assert_eq!(parse_hex("10000000000000000"), None);
    assert_eq!(parse_hex("fffffffffffffffff0g"), None);
}

#[test]
fn hex_offsets_agree_with_std() {
    for s in ["0x1A", "ff", "+0", "", "0x", "abcdefABCDEF", "123456789abcdef0", "-5", "g", "0x0x0x7"] {
        let std_value = u64::from_str_radix(s.trim_start_matches("0x"), 16).ok();
        assert_eq!(parse_hex(s), std_value, "{}", s);
    }
}
