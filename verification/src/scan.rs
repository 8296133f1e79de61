//! One radar snapshot, taken by walking the game's memory: the global
//! variables (for the map name), the local player, then the 64 slots of the
//! entity list. Each read is asked of the caller, who performs it against the
//! game process and hands back what it got, so the decisions between reads
//! stand here, apart from the memory access itself.

use vstd::prelude::*;
use crate::bytes::{
    c_string_text, c_string_to_string, decode_le, le_value, lemma_le_value_bound, lemma_le_value_explicit,
    lemma_pow256_eight,
};
use crate::offsets::Offsets;

verus! {

/// The number of bytes read for the map name.
pub const MAP_NAME_LEN: usize = 64;

/// The life state of a living pawn.
pub const LIFE_STATE_ALIVE: i32 = 256;

/// One player on the radar. The coordinates and the view angle are the raw bits
/// of the game's `f32` values; `local_z_bits` is the height of the local player,
/// against which a client tells the players on its own level.
#[derive(Clone, Copy, Debug, PartialEq, Eq, Structural)]
pub struct PlayerInfo {
    pub team_id: i32,
    pub health: i32,
    pub alive: bool,
    pub local_player: bool,
    pub enemy: bool,
    pub x_bits: u32,
    pub y_bits: u32,
    pub z_bits: u32,
    pub angle_bits: u32,
    pub local_z_bits: u32,
    pub comp_teammate_color: i32,
}

/// One radar snapshot: the map, the time the scan took in milliseconds, and the
/// living players.
pub struct RadarData {
    pub map_name: String,
    pub tick: u64,
    pub player_list: Vec<PlayerInfo>,
}

pub struct RadarView {
    pub map_name: Seq<char>,
    pub tick: u64,
    pub players: Seq<PlayerInfo>,
}

impl View for RadarData {
    type V = RadarView;

    open spec fn view(&self) -> RadarView {
        RadarView { map_name: self.map_name@, tick: self.tick, players: self.player_list@ }
    }
}

/// What the scan needs next.
#[derive(Clone, Copy, Debug, PartialEq, Eq, Structural)]
pub enum ScanRequest {
    /// Read `len` bytes of the game process at `addr`; reply `Failed` where the read fails.
    ReadMemory { addr: u64, len: usize },
    /// Read `len` bytes at `addr` into a zeroed buffer and reply with the buffer
    /// as the read left it, whether or not the read succeeded.
    ReadBuffer { addr: u64, len: usize },
    /// The milliseconds elapsed since the scan began.
    ElapsedMillis,
    /// Nothing: the snapshot is complete.
    Finished,
}

/// The answer to a request.
pub enum ScanReply {
    /// The bytes read.
    Bytes(Vec<u8>),
    /// The read failed.
    Failed,
    /// The elapsed milliseconds.
    Millis(u64),
}

pub enum ScanReplyView {
    Bytes(Seq<u8>),
    Failed,
    Millis(u64),
}

impl View for ScanReply {
    type V = ScanReplyView;

    open spec fn view(&self) -> ScanReplyView {
        match self {
            ScanReply::Bytes(b) => ScanReplyView::Bytes(b@),
            ScanReply::Failed => ScanReplyView::Failed,
            ScanReply::Millis(m) => ScanReplyView::Millis(*m),
        }
    }
}

/// Where the scan stands: the read it waits for.
#[derive(Clone, Copy, Debug, PartialEq, Eq, Structural)]
pub enum ScanPhase {
    GlobalVars,
    MapNamePtr,
    MapName,
    LocalPawn,
    LocalTeam,
    LocalZ,
    EntityListPtr,
    EntityList,
    Controller,
    PawnHandle,
    ListEntry,
    Pawn,
    Team,
    Health,
    LifeState,
    PosX,
    PosY,
    PosZ,
    Angle,
    Color,
    Clock,
    Finished,
}

/// What has been read of the entity slot being visited.
#[derive(Clone, Copy, Debug, PartialEq, Eq, Structural)]
pub struct PlayerDraft {
    pub index: u32,
    pub controller: u64,
    pub handle: u32,
    pub list_entry: u64,
    pub pawn: u64,
    pub team: i32,
    pub health: i32,
    pub x_bits: u32,
    pub y_bits: u32,
    pub z_bits: u32,
    pub angle_bits: u32,
}

pub struct ScanView {
    pub offsets: Offsets,
    pub client_base: u64,
    pub phase: ScanPhase,
    pub global_vars: u64,
    pub name_ptr: u64,
    pub map_name: Seq<char>,
    pub local_pawn: u64,
    pub local_team: i32,
    pub local_z_bits: u32,
    pub entity_list_ptr: u64,
    pub entity_list: u64,
    pub draft: PlayerDraft,
    pub players: Seq<PlayerInfo>,
    pub tick: u64,
}

// ---- addresses -------------------------------------------------------------

/// The address of the controller pointer of entity slot `index`.
pub open spec fn controller_slot(entity_list: u64, index: u32) -> u64 {
    entity_list.wrapping_add(((index as u64 + 1) * 0x70) as u64)
}

/// The address of the list entry that holds the pawn a handle names.
pub open spec fn list_entry_slot(entity_list_ptr: u64, handle: u32) -> u64 {
    entity_list_ptr.wrapping_add(0x10).wrapping_add((8 * (((handle & 0x7FFF) >> 9) as u64)) as u64)
}

/// The address of the pawn pointer that a handle names within its list entry.
pub open spec fn pawn_slot(list_entry: u64, handle: u32) -> u64 {
    list_entry.wrapping_add((0x70 * ((handle as u64) & 0x1FF)) as u64)
}

fn controller_slot_exec(entity_list: u64, index: u32) -> (a: u64)
    ensures
        a == controller_slot(entity_list, index),
{
    entity_list.wrapping_add((index as u64 + 1) * 0x70)
}

fn list_entry_slot_exec(entity_list_ptr: u64, handle: u32) -> (a: u64)
    ensures
        a == list_entry_slot(entity_list_ptr, handle),
{
    let idx = (handle & 0x7FFF) >> 9;
    assert((handle & 0x7FFF) >> 9 <= 63) by (bit_vector);
    entity_list_ptr.wrapping_add(0x10).wrapping_add(8 * (idx as u64))
}

fn pawn_slot_exec(list_entry: u64, handle: u32) -> (a: u64)
    ensures
        a == pawn_slot(list_entry, handle),
{
    let h = handle as u64;
    assert(h & 0x1FF <= 0x1FF) by (bit_vector);
    list_entry.wrapping_add(0x70 * (h & 0x1FF))
}

/// The address of the read that `s` waits for, and its length.
pub open spec fn scan_request(s: ScanView) -> ScanRequest {
    let o = s.offsets;
    let d = s.draft;
    let origin = o.m_v_old_origin;
    match s.phase {
        ScanPhase::GlobalVars => ScanRequest::ReadMemory {
            addr: s.client_base.wrapping_add(o.dw_global_vars),
            len: 8,
        },
        ScanPhase::MapNamePtr => ScanRequest::ReadMemory {
            addr: s.global_vars.wrapping_add(0x188),
            len: 8,
        },
        ScanPhase::MapName => ScanRequest::ReadBuffer { addr: s.name_ptr, len: 64 },
        ScanPhase::LocalPawn => ScanRequest::ReadMemory {
            addr: s.client_base.wrapping_add(o.dw_local_player_pawn),
            len: 8,
        },
        ScanPhase::LocalTeam => ScanRequest::ReadMemory {
            addr: s.local_pawn.wrapping_add(o.m_i_team_num),
            len: 4,
        },
        ScanPhase::LocalZ => ScanRequest::ReadMemory {
            addr: s.local_pawn.wrapping_add(origin).wrapping_add(8),
            len: 4,
        },
        ScanPhase::EntityListPtr => ScanRequest::ReadMemory {
            addr: s.client_base.wrapping_add(o.dw_entity_list),
            len: 8,
        },
        ScanPhase::EntityList => ScanRequest::ReadMemory {
            addr: s.entity_list_ptr.wrapping_add(0x10),
            len: 8,
        },
        ScanPhase::Controller => ScanRequest::ReadMemory {
            addr: controller_slot(s.entity_list, d.index),
            len: 8,
        },
        ScanPhase::PawnHandle => ScanRequest::ReadMemory {
            addr: d.controller.wrapping_add(o.m_h_player_pawn),
            len: 4,
        },
        ScanPhase::ListEntry => ScanRequest::ReadMemory {
            addr: list_entry_slot(s.entity_list_ptr, d.handle),
            len: 8,
        },
        ScanPhase::Pawn => ScanRequest::ReadMemory { addr: pawn_slot(d.list_entry, d.handle), len: 8 },
        ScanPhase::Team => ScanRequest::ReadMemory {
            addr: d.controller.wrapping_add(o.m_i_team_num),
            len: 4,
        },
        ScanPhase::Health => ScanRequest::ReadMemory {
            addr: d.pawn.wrapping_add(o.m_i_health),
            len: 4,
        },
        ScanPhase::LifeState => ScanRequest::ReadMemory {
            addr: d.pawn.wrapping_add(o.m_life_state),
            len: 4,
        },
        ScanPhase::PosX => ScanRequest::ReadMemory {
            addr: d.pawn.wrapping_add(origin).wrapping_add(4),
            len: 4,
        },
        ScanPhase::PosY => ScanRequest::ReadMemory { addr: d.pawn.wrapping_add(origin), len: 4 },
        ScanPhase::PosZ => ScanRequest::ReadMemory {
            addr: d.pawn.wrapping_add(origin).wrapping_add(8),
            len: 4,
        },
        ScanPhase::Angle => ScanRequest::ReadMemory {
            addr: d.pawn.wrapping_add(o.m_ang_eye_angles).wrapping_add(4),
            len: 4,
        },
        ScanPhase::Color => ScanRequest::ReadMemory {
            addr: d.controller.wrapping_add(o.m_i_comp_teammate_color),
            len: 4,
        },
        ScanPhase::Clock => ScanRequest::ElapsedMillis,
        ScanPhase::Finished => ScanRequest::Finished,
    }
}

/// `x` reduced modulo 2^64: the address that 64-bit wrapping arithmetic gives.
pub open spec fn mod64(x: int) -> u64 {
    (x % 0x1_0000_0000_0000_0000) as u64
}

proof fn lemma_wrapping_add(x: u64, y: u64)
    ensures
        x.wrapping_add(y) == mod64(x as int + y as int),
{
}

proof fn lemma_wrapping_add2(x: u64, y: u64, z: u64)
    ensures
        x.wrapping_add(y).wrapping_add(z) == mod64(x as int + y as int + z as int),
{
    lemma_wrapping_add(x, y);
    lemma_wrapping_add(x.wrapping_add(y), z);
}

/// Every read that a scan asks for is at the address that the pointers and
/// offsets it holds give, summed modulo 2^64; the pawn handle picks list block
/// `(handle mod 2^15) / 2^9` and entry `handle mod 2^9` within it.
pub proof fn lemma_request_addresses(s: ScanView)
    ensures
        ({
            let o = s.offsets;
            let d = s.draft;
            let origin = o.m_v_old_origin as int;
            let req = scan_request(s);
            &&& s.phase == ScanPhase::GlobalVars ==> req == ScanRequest::ReadMemory {
                addr: mod64(s.client_base + o.dw_global_vars),
                len: 8,
            }
            &&& s.phase == ScanPhase::MapNamePtr ==> req == ScanRequest::ReadMemory {
                addr: mod64(s.global_vars + 0x188),
                len: 8,
            }
            &&& s.phase == ScanPhase::MapName ==> req == ScanRequest::ReadBuffer {
                addr: s.name_ptr,
                len: 64,
            }
            &&& s.phase == ScanPhase::LocalPawn ==> req == ScanRequest::ReadMemory {
                addr: mod64(s.client_base + o.dw_local_player_pawn),
                len: 8,
            }
            &&& s.phase == ScanPhase::LocalTeam ==> req == ScanRequest::ReadMemory {
                addr: mod64(s.local_pawn + o.m_i_team_num),
                len: 4,
            }
            &&& s.phase == ScanPhase::LocalZ ==> req == ScanRequest::ReadMemory {
                addr: mod64(s.local_pawn + origin + 8),
                len: 4,
            }
            &&& s.phase == ScanPhase::EntityListPtr ==> req == ScanRequest::ReadMemory {
                addr: mod64(s.client_base + o.dw_entity_list),
                len: 8,
            }
            &&& s.phase == ScanPhase::EntityList ==> req == ScanRequest::ReadMemory {
                addr: mod64(s.entity_list_ptr + 0x10),
                len: 8,
            }
            &&& s.phase == ScanPhase::Controller ==> req == ScanRequest::ReadMemory {
                addr: mod64(s.entity_list + (d.index + 1) * 0x70),
                len: 8,
            }
            &&& s.phase == ScanPhase::PawnHandle ==> req == ScanRequest::ReadMemory {
                addr: mod64(d.controller + o.m_h_player_pawn),
                len: 4,
            }
            &&& s.phase == ScanPhase::ListEntry ==> req == ScanRequest::ReadMemory {
                addr: mod64(s.entity_list_ptr + 0x10 + 8 * ((d.handle % 0x8000) / 0x200)),
                len: 8,
            }
            &&& s.phase == ScanPhase::Pawn ==> req == ScanRequest::ReadMemory {
                addr: mod64(d.list_entry + 0x70 * (d.handle % 0x200)),
                len: 8,
            }
            &&& s.phase == ScanPhase::Team ==> req == ScanRequest::ReadMemory {
                addr: mod64(d.controller + o.m_i_team_num),
                len: 4,
            }
            &&& s.phase == ScanPhase::Health ==> req == ScanRequest::ReadMemory {
                addr: mod64(d.pawn + o.m_i_health),
                len: 4,
            }
            &&& s.phase == ScanPhase::LifeState ==> req == ScanRequest::ReadMemory {
                addr: mod64(d.pawn + o.m_life_state),
                len: 4,
            }
            &&& s.phase == ScanPhase::PosX ==> req == ScanRequest::ReadMemory {
                addr: mod64(d.pawn + origin + 4),
                len: 4,
            }
            &&& s.phase == ScanPhase::PosY ==> req == ScanRequest::ReadMemory {
                addr: mod64(d.pawn + origin),
                len: 4,
            }
            &&& s.phase == ScanPhase::PosZ ==> req == ScanRequest::ReadMemory {
                addr: mod64(d.pawn + origin + 8),
                len: 4,
            }
            &&& s.phase == ScanPhase::Angle ==> req == ScanRequest::ReadMemory {
                addr: mod64(d.pawn + o.m_ang_eye_angles + 4),
                len: 4,
            }
            &&& s.phase == ScanPhase::Color ==> req == ScanRequest::ReadMemory {
                addr: mod64(d.controller + o.m_i_comp_teammate_color),
                len: 4,
            }
            &&& s.phase == ScanPhase::Clock ==> req == ScanRequest::ElapsedMillis
            &&& s.phase == ScanPhase::Finished ==> req == ScanRequest::Finished
        }),
{
    let o = s.offsets;
    let d = s.draft;
    let h = d.handle;
    let blk: u32 = (h & 0x7FFF) >> 9;
    assert((h & 0x7FFF) >> 9 == (h % 0x8000) / 0x200) by (bit_vector);
    let hw = h as u64;
    assert(hw & 0x1FF == hw % 0x200) by (bit_vector);
    assert(blk <= 63) by (bit_vector)
        requires
            blk == (h & 0x7FFF) >> 9,
    ;
    assert(hw % 0x200 < 0x200);
    lemma_wrapping_add(s.client_base, o.dw_global_vars);
    lemma_wrapping_add(s.global_vars, 0x188);
    lemma_wrapping_add(s.client_base, o.dw_local_player_pawn);
    lemma_wrapping_add(s.local_pawn, o.m_i_team_num);
    lemma_wrapping_add2(s.local_pawn, o.m_v_old_origin, 8);
    lemma_wrapping_add(s.client_base, o.dw_entity_list);
    lemma_wrapping_add(s.entity_list_ptr, 0x10);
    lemma_wrapping_add(s.entity_list, ((d.index as u64 + 1) * 0x70) as u64);
    lemma_wrapping_add(d.controller, o.m_h_player_pawn);
    lemma_wrapping_add2(s.entity_list_ptr, 0x10, (8 * (((h & 0x7FFF) >> 9) as u64)) as u64);
    lemma_wrapping_add(d.list_entry, (0x70 * ((h as u64) & 0x1FF)) as u64);
    lemma_wrapping_add(d.controller, o.m_i_team_num);
    lemma_wrapping_add(d.pawn, o.m_i_health);
    lemma_wrapping_add(d.pawn, o.m_life_state);
    lemma_wrapping_add2(d.pawn, o.m_v_old_origin, 4);
    lemma_wrapping_add(d.pawn, o.m_v_old_origin);
    lemma_wrapping_add2(d.pawn, o.m_v_old_origin, 8);
    lemma_wrapping_add2(d.pawn, o.m_ang_eye_angles, 4);
    lemma_wrapping_add(d.controller, o.m_i_comp_teammate_color);
}

// ---- replies ---------------------------------------------------------------

/// The little-endian value of a reply of exactly `len` bytes.
pub open spec fn reply_value(r: ScanReplyView, len: nat) -> Option<nat> {
    match r {
        ScanReplyView::Bytes(b) => if b.len() == len {
            Some(le_value(b))
        } else {
            None
        },
        _ => None,
    }
}

/// A pointer read: eight bytes.
pub open spec fn reply_addr(r: ScanReplyView) -> Option<u64> {
    match reply_value(r, 8) {
        Some(v) => Some(v as u64),
        None => None,
    }
}

/// A four-byte read, as its bits.
pub open spec fn reply_u32(r: ScanReplyView) -> Option<u32> {
    match reply_value(r, 4) {
        Some(v) => Some(v as u32),
        None => None,
    }
}

/// A four-byte read, as a signed integer.
pub open spec fn reply_i32(r: ScanReplyView) -> Option<i32> {
    match reply_u32(r) {
        Some(v) => Some(v as i32),
        None => None,
    }
}

/// The map name that the reply to the map-name read gives: the NUL-terminated
/// text of the buffer, or nothing when the read failed outright.
pub open spec fn reply_text(r: ScanReplyView) -> Seq<char> {
    match r {
        ScanReplyView::Bytes(b) => c_string_text(b),
        _ => Seq::empty(),
    }
}

fn reply_addr_exec(r: &ScanReply) -> (v: Option<u64>)
    ensures
        v == reply_addr(r@),
{
    match r {
        ScanReply::Bytes(b) => {
            if b.len() == 8 {
                let v = decode_le(b.as_slice());
                Some(v)
            } else {
                None
            }
        },
        _ => None,
    }
}

fn reply_u32_exec(r: &ScanReply) -> (v: Option<u32>)
    ensures
        v == reply_u32(r@),
{
    match r {
        ScanReply::Bytes(b) => {
            if b.len() == 4 {
                let v = decode_le(b.as_slice());
                proof {
                    lemma_le_value_bound(b@);
                    lemma_pow256_eight();
                }
                Some(v as u32)
            } else {
                None
            }
        },
        _ => None,
    }
}

fn reply_i32_exec(r: &ScanReply) -> (v: Option<i32>)
    ensures
        v == reply_i32(r@),
{
    match reply_u32_exec(r) {
        Some(v) => Some(v as i32),
        None => None,
    }
}

// ---- transitions -----------------------------------------------------------

/// The scan that has just begun.
pub open spec fn initial_scan(offsets: Offsets, client_base: u64) -> ScanView {
    ScanView {
        offsets,
        client_base,
        phase: ScanPhase::GlobalVars,
        global_vars: 0,
        name_ptr: 0,
        map_name: Seq::empty(),
        local_pawn: 0,
        local_team: 0,
        local_z_bits: 0,
        entity_list_ptr: 0,
        entity_list: 0,
        draft: fresh_draft(0),
        players: Seq::empty(),
        tick: 0,
    }
}

pub open spec fn fresh_draft(index: u32) -> PlayerDraft {
    PlayerDraft {
        index,
        controller: 0,
        handle: 0,
        list_entry: 0,
        pawn: 0,
        team: 0,
        health: 0,
        x_bits: 0,
        y_bits: 0,
        z_bits: 0,
        angle_bits: 0,
    }
}

/// The scan ends early: the snapshot has the map name and no players.
pub open spec fn stop_early(s: ScanView, map_name: Seq<char>) -> ScanView {
    ScanView { phase: ScanPhase::Finished, map_name, players: Seq::empty(), tick: 0, ..s }
}

pub open spec fn with_phase(s: ScanView, phase: ScanPhase) -> ScanView {
    ScanView { phase, ..s }
}

pub open spec fn with_draft(s: ScanView, phase: ScanPhase, draft: PlayerDraft) -> ScanView {
    ScanView { phase, draft, ..s }
}

/// On to the next entity slot, or to the clock after the last one.
pub open spec fn next_slot(s: ScanView) -> ScanView {
    if s.draft.index < 63 {
        ScanView { phase: ScanPhase::Controller, draft: fresh_draft((s.draft.index + 1) as u32), ..s }
    } else {
        ScanView { phase: ScanPhase::Clock, ..s }
    }
}

/// The player that a completed slot shows.
pub open spec fn drafted_player(s: ScanView, color: i32) -> PlayerInfo {
    PlayerInfo {
        team_id: s.draft.team,
        health: s.draft.health,
        alive: true,
        local_player: s.local_pawn == s.draft.pawn,
        enemy: s.local_team != s.draft.team,
        x_bits: s.draft.x_bits,
        y_bits: s.draft.y_bits,
        z_bits: s.draft.z_bits,
        angle_bits: s.draft.angle_bits,
        local_z_bits: s.local_z_bits,
        comp_teammate_color: color,
    }
}

/// The scan after the reply `r` to the request of `s`.
pub open spec fn scan_advance(s: ScanView, r: ScanReplyView) -> ScanView {
    let d = s.draft;
    match s.phase {
        ScanPhase::GlobalVars => match reply_addr(r) {
            Some(g) if g != 0 => ScanView { phase: ScanPhase::MapNamePtr, global_vars: g, ..s },
            _ => stop_early(s, "unknown"@),
        },
        ScanPhase::MapNamePtr => match reply_addr(r) {
            Some(p) => if p != 0 {
                ScanView { phase: ScanPhase::MapName, name_ptr: p, ..s }
            } else {
                ScanView { phase: ScanPhase::LocalPawn, map_name: "unknown"@, ..s }
            },
            None => stop_early(s, "unknown"@),
        },
        ScanPhase::MapName => ScanView {
            phase: ScanPhase::LocalPawn,
            map_name: reply_text(r),
            ..s
        },
        ScanPhase::LocalPawn => match reply_addr(r) {
            Some(p) if p != 0 => ScanView { phase: ScanPhase::LocalTeam, local_pawn: p, ..s },
            _ => stop_early(s, s.map_name),
        },
        ScanPhase::LocalTeam => match reply_i32(r) {
            Some(t) => ScanView { phase: ScanPhase::LocalZ, local_team: t, ..s },
            None => stop_early(s, s.map_name),
        },
        ScanPhase::LocalZ => match reply_u32(r) {
            Some(z) => ScanView { phase: ScanPhase::EntityListPtr, local_z_bits: z, ..s },
            None => stop_early(s, s.map_name),
        },
        ScanPhase::EntityListPtr => match reply_addr(r) {
            Some(p) if p != 0 => ScanView { phase: ScanPhase::EntityList, entity_list_ptr: p, ..s },
            _ => stop_early(s, s.map_name),
        },
        ScanPhase::EntityList => match reply_addr(r) {
            Some(p) if p != 0 => ScanView {
                phase: ScanPhase::Controller,
                entity_list: p,
                draft: fresh_draft(0),
                ..s
            },
            _ => stop_early(s, s.map_name),
        },
        ScanPhase::Controller => match reply_addr(r) {
            Some(p) if p != 0 => with_draft(s, ScanPhase::PawnHandle, PlayerDraft { controller: p, ..d }),
            _ => next_slot(s),
        },
        ScanPhase::PawnHandle => match reply_u32(r) {
            Some(h) if h != 0 => with_draft(s, ScanPhase::ListEntry, PlayerDraft { handle: h, ..d }),
            _ => next_slot(s),
        },
        ScanPhase::ListEntry => match reply_addr(r) {
            Some(p) if p != 0 => with_draft(s, ScanPhase::Pawn, PlayerDraft { list_entry: p, ..d }),
            _ => next_slot(s),
        },
        ScanPhase::Pawn => match reply_addr(r) {
            Some(p) if p != 0 => with_draft(s, ScanPhase::Team, PlayerDraft { pawn: p, ..d }),
            _ => next_slot(s),
        },
        ScanPhase::Team => match reply_i32(r) {
            Some(t) => with_draft(s, ScanPhase::Health, PlayerDraft { team: t, ..d }),
            None => next_slot(s),
        },
        ScanPhase::Health => match reply_i32(r) {
            Some(h) => with_draft(s, ScanPhase::LifeState, PlayerDraft { health: h, ..d }),
            None => next_slot(s),
        },
        ScanPhase::LifeState => match reply_i32(r) {
            Some(l) if l == LIFE_STATE_ALIVE => with_phase(s, ScanPhase::PosX),
            _ => next_slot(s),
        },
        ScanPhase::PosX => match reply_u32(r) {
            Some(v) => with_draft(s, ScanPhase::PosY, PlayerDraft { x_bits: v, ..d }),
            None => next_slot(s),
        },
        ScanPhase::PosY => match reply_u32(r) {
            Some(v) => with_draft(s, ScanPhase::PosZ, PlayerDraft { y_bits: v, ..d }),
            None => next_slot(s),
        },
        ScanPhase::PosZ => match reply_u32(r) {
            Some(v) => with_draft(s, ScanPhase::Angle, PlayerDraft { z_bits: v, ..d }),
            None => next_slot(s),
        },
        ScanPhase::Angle => match reply_u32(r) {
            Some(v) => with_draft(s, ScanPhase::Color, PlayerDraft { angle_bits: v, ..d }),
            None => next_slot(s),
        },
        ScanPhase::Color => {
            let color = match reply_i32(r) {
                Some(c) => c,
                None => -1i32,
            };
            next_slot(ScanView { players: s.players.push(drafted_player(s, color)), ..s })
        },
        ScanPhase::Clock => match r {
            ScanReplyView::Millis(ms) => ScanView { phase: ScanPhase::Finished, tick: ms, ..s },
            _ => ScanView { phase: ScanPhase::Finished, tick: 0, ..s },
        },
        ScanPhase::Finished => s,
    }
}

/// The snapshot that a scan has gathered.
pub open spec fn scan_result(s: ScanView) -> RadarView {
    RadarView { map_name: s.map_name, tick: s.tick, players: s.players }
}

/// Replies are read little-endian and only at the requested width: eight bytes
/// for a pointer, four for a 32-bit value; any other reply is a failed read.
pub proof fn lemma_reply_decoding(b: Seq<u8>)
    ensures
        b.len() == 8 ==> reply_addr(ScanReplyView::Bytes(b)) == Some(
            (b[0] + 0x100 * b[1] + 0x1_0000 * b[2] + 0x100_0000 * b[3] + 0x1_0000_0000 * b[4]
                + 0x100_0000_0000 * b[5] + 0x1_0000_0000_0000 * b[6] + 0x100_0000_0000_0000
                * b[7]) as u64,
        ),
        b.len() == 4 ==> reply_u32(ScanReplyView::Bytes(b)) == Some(
            (b[0] + 0x100 * b[1] + 0x1_0000 * b[2] + 0x100_0000 * b[3]) as u32,
        ),
        b.len() == 4 ==> reply_i32(ScanReplyView::Bytes(b)) == Some(
            ((b[0] + 0x100 * b[1] + 0x1_0000 * b[2] + 0x100_0000 * b[3]) as u32) as i32,
        ),
        b.len() != 8 ==> reply_addr(ScanReplyView::Bytes(b)) is None,
        b.len() != 4 ==> reply_u32(ScanReplyView::Bytes(b)) is None,
        b.len() != 4 ==> reply_i32(ScanReplyView::Bytes(b)) is None,
        reply_addr(ScanReplyView::Failed) is None,
        reply_i32(ScanReplyView::Failed) is None,
{
    lemma_le_value_explicit(b);
}

/// The decisions of one step of a scan. A completed slot adds exactly one
/// player: its controller's team and its pawn's health, position and angle,
/// local when its pawn is the local pawn, an enemy when its team differs from
/// the local team, and the teammate colour read (-1 when that read fails). A
/// slot is dropped, and the scan goes on with the next slot (or the clock after
/// slot 63), when its controller, list entry or pawn pointer is null or
/// unreadable, its handle is zero or unreadable, a team, health, position or
/// angle read fails, or its life state is not 256. A missing global-variables
/// pointer ends the scan as `unknown`; a missing local player or entity list
/// ends it with the map name found; both with no players and time 0. The clock
/// reply gives the time.
pub proof fn lemma_advance_decisions(s: ScanView, r: ScanReplyView)
    ensures
        ({
            let n = scan_advance(s, r);
            let d = s.draft;
            let dropped = n.players == s.players && (if d.index < 63 {
                n.phase == ScanPhase::Controller && n.draft.index == d.index + 1
            } else {
                n.phase == ScanPhase::Clock
            });
            let ended = n.phase == ScanPhase::Finished && n.tick == 0 && n.players.len() == 0;
            &&& s.phase == ScanPhase::Color ==> n.players == s.players.push(
                PlayerInfo {
                    team_id: d.team,
                    health: d.health,
                    alive: true,
                    local_player: s.local_pawn == d.pawn,
                    enemy: s.local_team != d.team,
                    x_bits: d.x_bits,
                    y_bits: d.y_bits,
                    z_bits: d.z_bits,
                    angle_bits: d.angle_bits,
                    local_z_bits: s.local_z_bits,
                    comp_teammate_color: match reply_i32(r) {
                        Some(c) => c,
                        None => -1i32,
                    },
                },
            )
            &&& s.phase == ScanPhase::Color ==> (if d.index < 63 {
                n.phase == ScanPhase::Controller && n.draft.index == d.index + 1
            } else {
                n.phase == ScanPhase::Clock
            })
            &&& s.phase == ScanPhase::LifeState ==> (if reply_i32(r) == Some(256i32) {
                n.phase == ScanPhase::PosX && n.draft == d && n.players == s.players
            } else {
                dropped
            })
            &&& s.phase == ScanPhase::Controller ==> (match reply_addr(r) {
                Some(p) if p != 0 => n.phase == ScanPhase::PawnHandle && n.draft.controller == p
                    && n.draft.index == d.index,
                _ => dropped,
            })
            &&& s.phase == ScanPhase::PawnHandle ==> (match reply_u32(r) {
                Some(h) if h != 0 => n.phase == ScanPhase::ListEntry && n.draft.handle == h
                    && n.draft.controller == d.controller,
                _ => dropped,
            })
            &&& s.phase == ScanPhase::ListEntry ==> (match reply_addr(r) {
                Some(p) if p != 0 => n.phase == ScanPhase::Pawn && n.draft.list_entry == p
                    && n.draft.handle == d.handle,
                _ => dropped,
            })
            &&& s.phase == ScanPhase::Pawn ==> (match reply_addr(r) {
                Some(p) if p != 0 => n.phase == ScanPhase::Team && n.draft.pawn == p
                    && n.draft.controller == d.controller,
                _ => dropped,
            })
            &&& s.phase == ScanPhase::Team ==> (match reply_i32(r) {
                Some(t) => n.phase == ScanPhase::Health && n.draft.team == t && n.draft.pawn == d.pawn,
                None => dropped,
            })
            &&& s.phase == ScanPhase::Health ==> (match reply_i32(r) {
                Some(h) => n.phase == ScanPhase::LifeState && n.draft.health == h && n.draft.team
                    == d.team,
                None => dropped,
            })
            &&& s.phase == ScanPhase::PosX ==> (match reply_u32(r) {
                Some(v) => n.phase == ScanPhase::PosY && n.draft.x_bits == v && n.draft.health
                    == d.health,
                None => dropped,
            })
            &&& s.phase == ScanPhase::PosY ==> (match reply_u32(r) {
                Some(v) => n.phase == ScanPhase::PosZ && n.draft.y_bits == v && n.draft.x_bits
                    == d.x_bits,
                None => dropped,
            })
            &&& s.phase == ScanPhase::PosZ ==> (match reply_u32(r) {
                Some(v) => n.phase == ScanPhase::Angle && n.draft.z_bits == v && n.draft.y_bits
                    == d.y_bits,
                None => dropped,
            })
            &&& s.phase == ScanPhase::Angle ==> (match reply_u32(r) {
                Some(v) => n.phase == ScanPhase::Color && n.draft.angle_bits == v && n.draft.z_bits
                    == d.z_bits,
                None => dropped,
            })
            &&& s.phase == ScanPhase::GlobalVars ==> (match reply_addr(r) {
                Some(g) if g != 0 => n.phase == ScanPhase::MapNamePtr && n.global_vars == g,
                _ => ended && n.map_name == "unknown"@,
            })
            &&& s.phase == ScanPhase::MapNamePtr ==> (match reply_addr(r) {
                Some(p) => if p != 0 {
                    n.phase == ScanPhase::MapName && n.name_ptr == p
                } else {
                    n.phase == ScanPhase::LocalPawn && n.map_name == "unknown"@
                },
                None => ended && n.map_name == "unknown"@,
            })
            &&& s.phase == ScanPhase::MapName ==> n.phase == ScanPhase::LocalPawn && n.map_name
                == reply_text(r)
            &&& s.phase == ScanPhase::LocalPawn ==> (match reply_addr(r) {
                Some(p) if p != 0 => n.phase == ScanPhase::LocalTeam && n.local_pawn == p,
                _ => ended && n.map_name == s.map_name,
            })
            &&& s.phase == ScanPhase::LocalTeam ==> (match reply_i32(r) {
                Some(t) => n.phase == ScanPhase::LocalZ && n.local_team == t,
                None => ended && n.map_name == s.map_name,
            })
            &&& s.phase == ScanPhase::LocalZ ==> (match reply_u32(r) {
                Some(z) => n.phase == ScanPhase::EntityListPtr && n.local_z_bits == z,
                None => ended && n.map_name == s.map_name,
            })
            &&& s.phase == ScanPhase::EntityListPtr ==> (match reply_addr(r) {
                Some(p) if p != 0 => n.phase == ScanPhase::EntityList && n.entity_list_ptr == p,
                _ => ended && n.map_name == s.map_name,
            })
            &&& s.phase == ScanPhase::EntityList ==> (match reply_addr(r) {
                Some(p) if p != 0 => n.phase == ScanPhase::Controller && n.entity_list == p
                    && n.draft.index == 0 && n.players == s.players,
                _ => ended && n.map_name == s.map_name,
            })
            &&& s.phase == ScanPhase::Clock ==> n.phase == ScanPhase::Finished && n.players
                == s.players && n.map_name == s.map_name && (r matches ScanReplyView::Millis(ms)
                ==> n.tick == ms)
            &&& s.phase == ScanPhase::Finished ==> n == s
            &&& n.offsets == s.offsets && n.client_base == s.client_base
        }),
{
}

// ---- the machine ------------------------------------------------------------

/// A radar snapshot in the making.
pub struct RadarScan {
    offsets: Offsets,
    client_base: u64,
    phase: ScanPhase,
    global_vars: u64,
    name_ptr: u64,
    map_name: String,
    local_pawn: u64,
    local_team: i32,
    local_z_bits: u32,
    entity_list_ptr: u64,
    entity_list: u64,
    draft: PlayerDraft,
    players: Vec<PlayerInfo>,
    tick: u64,
}

impl View for RadarScan {
    type V = ScanView;

    closed spec fn view(&self) -> ScanView {
        ScanView {
            offsets: self.offsets,
            client_base: self.client_base,
            phase: self.phase,
            global_vars: self.global_vars,
            name_ptr: self.name_ptr,
            map_name: self.map_name@,
            local_pawn: self.local_pawn,
            local_team: self.local_team,
            local_z_bits: self.local_z_bits,
            entity_list_ptr: self.entity_list_ptr,
            entity_list: self.entity_list,
            draft: self.draft,
            players: self.players@,
            tick: self.tick,
        }
    }
}

impl RadarScan {
    /// Begins a snapshot of the client module loaded at `client_base`.
    pub fn new(offsets: Offsets, client_base: u64) -> (s: RadarScan)
        ensures
            s@ == initial_scan(offsets, client_base),
    {
        let s = RadarScan {
            offsets,
            client_base,
            phase: ScanPhase::GlobalVars,
            global_vars: 0,
            name_ptr: 0,
            map_name: String::new(),
            local_pawn: 0,
            local_team: 0,
            local_z_bits: 0,
            entity_list_ptr: 0,
            entity_list: 0,
            draft: PlayerDraft {
                index: 0,
                controller: 0,
                handle: 0,
                list_entry: 0,
                pawn: 0,
                team: 0,
                health: 0,
                x_bits: 0,
                y_bits: 0,
                z_bits: 0,
                angle_bits: 0,
            },
            players: Vec::new(),
            tick: 0,
        };
        proof {
            assert(s@.players =~= Seq::<PlayerInfo>::empty());
        }
        s
    }

    /// What the scan needs next.
    pub fn request(&self) -> (r: ScanRequest)
        ensures
            r == scan_request(self@),
    {
        let o = &self.offsets;
        let d = &self.draft;
        let origin = o.m_v_old_origin;
        match self.phase {
            ScanPhase::GlobalVars => ScanRequest::ReadMemory {
                addr: self.client_base.wrapping_add(o.dw_global_vars),
                len: 8,
            },
            ScanPhase::MapNamePtr => ScanRequest::ReadMemory {
                addr: self.global_vars.wrapping_add(0x188),
                len: 8,
            },
            ScanPhase::MapName => ScanRequest::ReadBuffer { addr: self.name_ptr, len: MAP_NAME_LEN },
            ScanPhase::LocalPawn => ScanRequest::ReadMemory {
                addr: self.client_base.wrapping_add(o.dw_local_player_pawn),
                len: 8,
            },
            ScanPhase::LocalTeam => ScanRequest::ReadMemory {
                addr: self.local_pawn.wrapping_add(o.m_i_team_num),
                len: 4,
            },
            ScanPhase::LocalZ => ScanRequest::ReadMemory {
                addr: self.local_pawn.wrapping_add(origin).wrapping_add(8),
                len: 4,
            },
            ScanPhase::EntityListPtr => ScanRequest::ReadMemory {
                addr: self.client_base.wrapping_add(o.dw_entity_list),
                len: 8,
            },
            ScanPhase::EntityList => ScanRequest::ReadMemory {
                addr: self.entity_list_ptr.wrapping_add(0x10),
                len: 8,
            },
            ScanPhase::Controller => ScanRequest::ReadMemory {
                addr: controller_slot_exec(self.entity_list, d.index),
                len: 8,
            },
            ScanPhase::PawnHandle => ScanRequest::ReadMemory {
                addr: d.controller.wrapping_add(o.m_h_player_pawn),
                len: 4,
            },
            ScanPhase::ListEntry => ScanRequest::ReadMemory {
                addr: list_entry_slot_exec(self.entity_list_ptr, d.handle),
                len: 8,
            },
            ScanPhase::Pawn => ScanRequest::ReadMemory {
                addr: pawn_slot_exec(d.list_entry, d.handle),
                len: 8,
            },
            ScanPhase::Team => ScanRequest::ReadMemory {
                addr: d.controller.wrapping_add(o.m_i_team_num),
                len: 4,
            },
            ScanPhase::Health => ScanRequest::ReadMemory {
                addr: d.pawn.wrapping_add(o.m_i_health),
                len: 4,
            },
            ScanPhase::LifeState => ScanRequest::ReadMemory {
                addr: d.pawn.wrapping_add(o.m_life_state),
                len: 4,
            },
            ScanPhase::PosX => ScanRequest::ReadMemory {
                addr: d.pawn.wrapping_add(origin).wrapping_add(4),
                len: 4,
            },
            ScanPhase::PosY => ScanRequest::ReadMemory { addr: d.pawn.wrapping_add(origin), len: 4 },
            ScanPhase::PosZ => ScanRequest::ReadMemory {
                addr: d.pawn.wrapping_add(origin).wrapping_add(8),
                len: 4,
            },
            ScanPhase::Angle => ScanRequest::ReadMemory {
                addr: d.pawn.wrapping_add(o.m_ang_eye_angles).wrapping_add(4),
                len: 4,
            },
            ScanPhase::Color => ScanRequest::ReadMemory {
                addr: d.controller.wrapping_add(o.m_i_comp_teammate_color),
                len: 4,
            },
            ScanPhase::Clock => ScanRequest::ElapsedMillis,
            ScanPhase::Finished => ScanRequest::Finished,
        }
    }

    /// Whether the snapshot is complete.
    pub fn is_finished(&self) -> (b: bool)
        ensures
            b == (self@.phase == ScanPhase::Finished),
    {
        match self.phase {
            ScanPhase::Finished => true,
            _ => false,
        }
    }

    fn stop_early(&mut self, map_name: String)
        ensures
            final(self)@ == stop_early(old(self)@, map_name@),
    {
        self.phase = ScanPhase::Finished;
        self.map_name = map_name;
        self.players = Vec::new();
        self.tick = 0;
        proof {
            assert(self@.players =~= Seq::<PlayerInfo>::empty());
        }
    }

    fn next_slot(&mut self)
        ensures
            final(self)@ == next_slot(old(self)@),
    {
        if self.draft.index < 63 {
            self.phase = ScanPhase::Controller;
            self.draft = PlayerDraft {
                index: self.draft.index + 1,
                controller: 0,
                handle: 0,
                list_entry: 0,
                pawn: 0,
                team: 0,
                health: 0,
                x_bits: 0,
                y_bits: 0,
                z_bits: 0,
                angle_bits: 0,
            };
        } else {
            self.phase = ScanPhase::Clock;
        }
    }

    /// Takes in the reply to the current request.
    pub fn advance(&mut self, reply: ScanReply)
        ensures
            final(self)@ == scan_advance(old(self)@, reply@),
    {
        match self.phase {
            ScanPhase::GlobalVars => match reply_addr_exec(&reply) {
                Some(g) if g != 0 => {
                    self.global_vars = g;
                    self.phase = ScanPhase::MapNamePtr;
                },
                _ => self.stop_early(String::from_str("unknown")),
            },
            ScanPhase::MapNamePtr => match reply_addr_exec(&reply) {
                Some(p) => {
                    if p != 0 {
                        self.name_ptr = p;
                        self.phase = ScanPhase::MapName;
                    } else {
                        self.map_name = String::from_str("unknown");
                        self.phase = ScanPhase::LocalPawn;
                    }
                },
                None => self.stop_early(String::from_str("unknown")),
            },
            ScanPhase::MapName => {
                self.map_name = match &reply {
                    ScanReply::Bytes(b) => c_string_to_string(b.as_slice()),
                    _ => String::new(),
                };
                self.phase = ScanPhase::LocalPawn;
            },
            ScanPhase::LocalPawn => match reply_addr_exec(&reply) {
                Some(p) if p != 0 => {
                    self.local_pawn = p;
                    self.phase = ScanPhase::LocalTeam;
                },
                _ => {
                    let name = self.map_name.clone();
                    self.stop_early(name);
                },
            },
            ScanPhase::LocalTeam => match reply_i32_exec(&reply) {
                Some(t) => {
                    self.local_team = t;
                    self.phase = ScanPhase::LocalZ;
                },
                None => {
                    let name = self.map_name.clone();
                    self.stop_early(name);
                },
            },
            ScanPhase::LocalZ => match reply_u32_exec(&reply) {
                Some(z) => {
                    self.local_z_bits = z;
                    self.phase = ScanPhase::EntityListPtr;
                },
                None => {
                    let name = self.map_name.clone();
                    self.stop_early(name);
                },
            },
            ScanPhase::EntityListPtr => match reply_addr_exec(&reply) {
                Some(p) if p != 0 => {
                    self.entity_list_ptr = p;
                    self.phase = ScanPhase::EntityList;
                },
                _ => {
                    let name = self.map_name.clone();
                    self.stop_early(name);
                },
            },
            ScanPhase::EntityList => match reply_addr_exec(&reply) {
                Some(p) if p != 0 => {
                    self.entity_list = p;
                    self.draft = PlayerDraft {
                        index: 0,
                        controller: 0,
                        handle: 0,
                        list_entry: 0,
                        pawn: 0,
                        team: 0,
                        health: 0,
                        x_bits: 0,
                        y_bits: 0,
                        z_bits: 0,
                        angle_bits: 0,
                    };
                    self.phase = ScanPhase::Controller;
                },
                _ => {
                    let name = self.map_name.clone();
                    self.stop_early(name);
                },
            },
            ScanPhase::Controller => match reply_addr_exec(&reply) {
                Some(p) if p != 0 => {
                    self.draft.controller = p;
                    self.phase = ScanPhase::PawnHandle;
                },
                _ => self.next_slot(),
            },
            ScanPhase::PawnHandle => match reply_u32_exec(&reply) {
                Some(h) if h != 0 => {
                    self.draft.handle = h;
                    self.phase = ScanPhase::ListEntry;
                },
                _ => self.next_slot(),
            },
            ScanPhase::ListEntry => match reply_addr_exec(&reply) {
                Some(p) if p != 0 => {
                    self.draft.list_entry = p;
                    self.phase = ScanPhase::Pawn;
                },
                _ => self.next_slot(),
            },
            ScanPhase::Pawn => match reply_addr_exec(&reply) {
                Some(p) if p != 0 => {
                    self.draft.pawn = p;
                    self.phase = ScanPhase::Team;
                },
                _ => self.next_slot(),
            },
            ScanPhase::Team => match reply_i32_exec(&reply) {
                Some(t) => {
                    self.draft.team = t;
                    self.phase = ScanPhase::Health;
                },
                None => self.next_slot(),
            },
            ScanPhase::Health => match reply_i32_exec(&reply) {
                Some(h) => {
                    self.draft.health = h;
                    self.phase = ScanPhase::LifeState;
                },
                None => self.next_slot(),
            },
            ScanPhase::LifeState => match reply_i32_exec(&reply) {
                Some(l) if l == LIFE_STATE_ALIVE => {
                    self.phase = ScanPhase::PosX;
                },
                _ => self.next_slot(),
            },
            ScanPhase::PosX => match reply_u32_exec(&reply) {
                Some(v) => {
                    self.draft.x_bits = v;
                    self.phase = ScanPhase::PosY;
                },
                None => self.next_slot(),
            },
            ScanPhase::PosY => match reply_u32_exec(&reply) {
                Some(v) => {
                    self.draft.y_bits = v;
                    self.phase = ScanPhase::PosZ;
                },
                None => self.next_slot(),
            },
            ScanPhase::PosZ => match reply_u32_exec(&reply) {
                Some(v) => {
                    self.draft.z_bits = v;
                    self.phase = ScanPhase::Angle;
                },
                None => self.next_slot(),
            },
            ScanPhase::Angle => match reply_u32_exec(&reply) {
                Some(v) => {
                    self.draft.angle_bits = v;
                    self.phase = ScanPhase::Color;
                },
                None => self.next_slot(),
            },
            ScanPhase::Color => {
                let color = match reply_i32_exec(&reply) {
                    Some(c) => c,
                    None => -1i32,
                };
                let d = self.draft;
                let p = PlayerInfo {
                    team_id: d.team,
                    health: d.health,
                    alive: true,
                    local_player: self.local_pawn == d.pawn,
                    enemy: self.local_team != d.team,
                    x_bits: d.x_bits,
                    y_bits: d.y_bits,
                    z_bits: d.z_bits,
                    angle_bits: d.angle_bits,
                    local_z_bits: self.local_z_bits,
                    comp_teammate_color: color,
                };
                self.players.push(p);
                self.next_slot();
            },
            ScanPhase::Clock => {
                self.tick = match reply {
                    ScanReply::Millis(ms) => ms,
                    _ => 0,
                };
                self.phase = ScanPhase::Finished;
            },
            ScanPhase::Finished => {},
        }
    }

    /// The snapshot gathered so far (the whole snapshot once finished).
    pub fn into_data(self) -> (d: RadarData)
        ensures
            d@ == scan_result(self@),
    {
        RadarData { map_name: self.map_name, tick: self.tick, player_list: self.players }
    }
}

} // verus!
