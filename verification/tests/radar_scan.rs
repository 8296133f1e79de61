use std::collections::HashMap;

use cs2_radar::offsets::Offsets;
use cs2_radar::scan::{PlayerInfo, RadarData, RadarScan, ScanReply, ScanRequest};

struct FakeMemory {
    bytes: HashMap<u64, u8>,
}

impl FakeMemory {
    fn new() -> Self {
        FakeMemory { bytes: HashMap::new() }
    }

    fn put(&mut self, addr: u64, data: &[u8]) {
        for (i, b) in data.iter().enumerate() {
            self.bytes.insert(addr + i as u64, *b);
        }
    }

    fn put_u64(&mut self, addr: u64, v: u64) {
        self.put(addr, &v.to_le_bytes());
    }

    fn put_u32(&mut self, addr: u64, v: u32) {
        self.put(addr, &v.to_le_bytes());
    }

    fn put_i32(&mut self, addr: u64, v: i32) {
        self.put(addr, &v.to_le_bytes());
    }

    fn read(&self, addr: u64, len: usize) -> Option<Vec<u8>> {
        let mut out = Vec::new();
        for i in 0..len as u64 {
            out.push(*self.bytes.get(&addr.wrapping_add(i))?);
        }
        Some(out)
    }
}

const BASE: u64 = 0x1000_0000;
const GLOBALS: u64 = 0x2000_0000;
const NAME: u64 = 0x2100_0000;
const LOCAL_PAWN: u64 = 0x3000_0000;
const ENTITY_LIST_PTR: u64 = 0x4000_0000;
const ENTITY_LIST: u64 = 0x5000_0000;
const LIST_ENTRY: u64 = 0x7000_0000;
const OTHER_PAWN: u64 = 0x8000_0000;
const DEAD_PAWN: u64 = 0x9000_0000;

fn offsets() -> Offsets {
    Offsets {
        dw_local_player_pawn: 0x100,
        dw_entity_list: 0x200,
        dw_global_vars: 0x300,
        m_i_health: 0x10,
        m_i_pawn_armor: 0x14,
        m_life_state: 0x18,
        m_ang_eye_angles: 0x20,
        m_i_team_num: 0x30,
        m_h_player_pawn: 0x40,
        m_v_old_origin: 0x50,
        m_i_comp_teammate_color: 0x60,
    }
}

fn put_pawn(m: &mut FakeMemory, pawn: u64, health: i32, life: i32, pos: [f32; 3], angle: f32) {
    m.put_i32(pawn + 0x10, health);
    m.put_i32(pawn + 0x18, life);
    m.put_u32(pawn + 0x50 + 4, pos[0].to_bits());
    m.put_u32(pawn + 0x50, pos[1].to_bits());
    m.put_u32(pawn + 0x50 + 8, pos[2].to_bits());
    m.put_u32(pawn + 0x20 + 4, angle.to_bits());
}

fn put_controller(m: &mut FakeMemory, slot: u64, controller: u64, handle: u32, team: i32, color: Option<i32>) {
    m.put_u64(ENTITY_LIST + (slot + 1) * 0x70, controller);
    m.put_u32(controller + 0x40, handle);
    m.put_i32(controller + 0x30, team);
    if let Some(c) = color {
        m.put_i32(controller + 0x60, c);
    }
}

fn full_memory() -> FakeMemory {
    let mut m = FakeMemory::new();
    m.put_u64(BASE + 0x300, GLOBALS);
    m.put_u64(GLOBALS + 0x188, NAME);
    let mut name = [0u8; 64];
    name[..8].copy_from_slice(b"de_dust2");
    m.put(NAME, &name);
    m.put_u64(BASE + 0x100, LOCAL_PAWN);
    m.put_i32(LOCAL_PAWN + 0x30, 2);
    m.put_u32(LOCAL_PAWN + 0x50 + 8, 10.0f32.to_bits());
    m.put_u64(BASE + 0x200, ENTITY_LIST_PTR);
    m.put_u64(ENTITY_LIST_PTR + 0x10, ENTITY_LIST);
    // handles 0x203, 0x205, 0x207 all name list block 1, entries 3, 5, 7
    m.put_u64(ENTITY_LIST_PTR + 0x10 + 8, LIST_ENTRY);
    m.put_u64(LIST_ENTRY + 0x70 * 3, LOCAL_PAWN);
    m.put_u64(LIST_ENTRY + 0x70 * 5, OTHER_PAWN);
    m.put_u64(LIST_ENTRY + 0x70 * 7, DEAD_PAWN);
    put_controller(&mut m, 0, 0x6000_0000, 0x203, 2, Some(3));
    put_pawn(&mut m, LOCAL_PAWN, 100, 256, [1.0, 2.0, 10.0], 45.0);
    put_controller(&mut m, 5, 0x6100_0000, 0x205, 3, None);
    put_pawn(&mut m, OTHER_PAWN, 50, 256, [-4.0, 8.5, 300.0], 180.0);
    put_controller(&mut m, 7, 0x6200_0000, 0x207, 3, Some(1));
    put_pawn(&mut m, DEAD_PAWN, 0, 0, [0.0, 0.0, 0.0], 0.0);
    m
}

fn drive(m: &FakeMemory, millis: u64) -> (RadarData, usize) {
    let mut scan = RadarScan::new(offsets(), BASE);
    let mut steps = 0;
    loop {
        match scan.request() {
            ScanRequest::ReadMemory { addr, len } => {
                let reply = match m.read(addr, len) {
                    Some(b) => ScanReply::Bytes(b),
                    None => ScanReply::Failed,
                };
                scan.advance(reply);
            },
            ScanRequest::ReadBuffer { addr, len } => {
                let buf = m.read(addr, len).unwrap_or_else(|| vec![0; len]);
                scan.advance(ScanReply::Bytes(buf));
            },
            ScanRequest::ElapsedMillis => scan.advance(ScanReply::Millis(millis)),
            ScanRequest::Finished => break,
        }
        steps += 1;
        assert!(steps <= 777);
    }
    assert!(scan.is_finished());
    (scan.into_data(), steps)
}

#[test]
fn full_scan_lists_living_players_in_slot_order() {
    let (data, steps) = drive(&full_memory(), 42);
    assert_eq!(data.map_name, "de_dust2");
    assert_eq!(data.tick, 42);
    assert!(steps <= 777);
    assert_eq!(
        data.player_list,
        vec![
            PlayerInfo {
                team_id: 2,
                health: 100,
                alive: true,
                local_player: true,
                enemy: false,
                x_bits: 1.0f32.to_bits(),
                y_bits: 2.0f32.to_bits(),
                z_bits: 10.0f32.to_bits(),
                angle_bits: 45.0f32.to_bits(),
                local_z_bits: 10.0f32.to_bits(),
                comp_teammate_color: 3,
            },
            PlayerInfo {
                team_id: 3,
                health: 50,
                alive: true,
                local_player: false,
                enemy: true,
                x_bits: (-4.0f32).to_bits(),
                y_bits: 8.5f32.to_bits(),
                z_bits: 300.0f32.to_bits(),
                angle_bits: 180.0f32.to_bits(),
                local_z_bits: 10.0f32.to_bits(),
                comp_teammate_color: -1,
            },
        ]
    );
}

#[test]
fn missing_global_vars_gives_unknown_map() {
    let (data, steps) = drive(&FakeMemory::new(), 42);
    assert_eq!(data.map_name, "unknown");
    assert_eq!(data.tick, 0);
    assert!(data.player_list.is_empty());
    assert_eq!(steps, 1);
}

#[test]
fn null_global_vars_gives_unknown_map() {
    let mut m = full_memory();
    m.put_u64(BASE + 0x300, 0);
    let (data, _) = drive(&m, 42);
    assert_eq!(data.map_name, "unknown");
    assert_eq!(data.tick, 0);
    assert!(data.player_list.is_empty());
}

#[test]
fn null_name_pointer_names_the_map_unknown_and_goes_on() {
    let mut m = full_memory();
    m.put_u64(GLOBALS + 0x188, 0);
    let (data, _) = drive(&m, 7);
    assert_eq!(data.map_name, "unknown");
    assert_eq!(data.tick, 7);
    assert_eq!(data.player_list.len(), 2);
}

#[test]
fn missing_local_pawn_keeps_the_map_name_only() {
    let mut m = full_memory();
    m.put_u64(BASE + 0x100, 0);
    let (data, _) = drive(&m, 42);
    assert_eq!(data.map_name, "de_dust2");
    assert_eq!(data.tick, 0);
    assert!(data.player_list.is_empty());
}

#[test]
fn null_entity_list_keeps_the_map_name_only() {
    let mut m = full_memory();
    m.put_u64(ENTITY_LIST_PTR + 0x10, 0);
    let (data, _) = drive(&m, 42);
    assert_eq!(data.map_name, "de_dust2");
    assert_eq!(data.tick, 0);
    assert!(data.player_list.is_empty());
}

#[test]
fn map_name_stops_at_the_first_zero_and_replaces_bad_utf8() {
    let mut m = full_memory();
    let mut name = [0u8; 64];
    name[..4].copy_from_slice(&[b'a', 0xff, b'b', 0]);
    name[4] = b'z';
    m.put(NAME, &name);
    let (data, _) = drive(&m, 1);
    assert_eq!(data.map_name, "a\u{FFFD}b");
}

#[test]
fn map_name_read_failure_leaves_an_empty_name() {
    let mut scan = RadarScan::new(offsets(), BASE);
    scan.advance(ScanReply::Bytes(GLOBALS.to_le_bytes().to_vec()));
    scan.advance(ScanReply::Bytes(NAME.to_le_bytes().to_vec()));
    assert_eq!(scan.request(), ScanRequest::ReadBuffer { addr: NAME, len: 64 });
    scan.advance(ScanReply::Failed);
    scan.advance(ScanReply::Failed);
    assert!(scan.is_finished());
    let data = scan.into_data();
    assert_eq!(data.map_name, "");
}

#[test]
fn requests_follow_the_pointer_chain() {
    let mut scan = RadarScan::new(offsets(), BASE);
    assert_eq!(scan.request(), ScanRequest::ReadMemory { addr: BASE + 0x300, len: 8 });
    scan.advance(ScanReply::Bytes(GLOBALS.to_le_bytes().to_vec()));
    assert_eq!(scan.request(), ScanRequest::ReadMemory { addr: GLOBALS + 0x188, len: 8 });
    // a reply of the wrong length is a failed read
    scan.advance(ScanReply::Bytes(vec![1, 2, 3]));
    assert!(scan.is_finished());
    assert_eq!(scan.request(), ScanRequest::Finished);
}

#[test]
fn addresses_wrap_around() {
    let mut o = offsets();
    o.dw_global_vars = 0x10;
    let mut scan = RadarScan::new(o, u64::MAX);
    assert_eq!(scan.request(), ScanRequest::ReadMemory { addr: 0xf, len: 8 });
    scan.advance(ScanReply::Failed);
    assert!(scan.is_finished());
}

#[test]
fn slot_address_and_handle_decoding() {
    let mut m = full_memory();
    // a handle whose list block is 0x7fff >> 9 = 63 and whose entry is 0x1ff
    let h: u32 = 0xffff_ffff;
    put_controller(&mut m, 63, 0x6300_0000, h, 2, Some(0));
    m.put_u64(ENTITY_LIST_PTR + 0x10 + 8 * 63, 0x7100_0000);
    m.put_u64(0x7100_0000 + 0x70 * 0x1ff, 0xa000_0000);
    put_pawn(&mut m, 0xa000_0000, 1, 256, [0.0, 0.0, 0.0], 0.0);
    let (data, _) = drive(&m, 3);
    assert_eq!(data.player_list.len(), 3);
    assert_eq!(data.player_list[2].health, 1);
    assert_eq!(data.player_list[2].comp_teammate_color, 0);
}

#[test]
fn every_reply_moves_the_scan_forward() {
    // whatever the replies, the scan finishes within 777 of them
    for reply_kind in 0..3 {
        let mut scan = RadarScan::new(offsets(), BASE);
        let mut steps = 0;
        while !scan.is_finished() {
            let reply = match reply_kind {
                0 => ScanReply::Failed,
                1 => ScanReply::Bytes(vec![1; 8]),
                _ => ScanReply::Bytes(vec![0, 1, 0, 0]),
            };
            scan.advance(reply);
            steps += 1;
            assert!(steps <= 777);
        }
        let data = scan.into_data();
        assert!(data.player_list.len() <= 64);
        assert!(data.player_list.iter().all(|p| p.alive));
    }
}
