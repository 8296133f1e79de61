//! What a radar snapshot is, stated directly over a model of the game's memory,
//! and the proof that the scan in `scan` computes it.

use vstd::prelude::*;
use crate::bytes::{c_string_text, le_value};
use crate::offsets::Offsets;
use crate::scan::{
    initial_scan, scan_result, reply_addr, reply_i32, reply_text, reply_u32, reply_value,
    PlayerDraft, controller_slot, list_entry_slot, pawn_slot, scan_advance, scan_request, PlayerInfo, RadarView,
    ScanPhase, ScanReplyView, ScanRequest, ScanView, LIFE_STATE_ALIVE,
};

verus! {

/// A model of the game's memory as the radar sees it: what a read of `len`
/// bytes at an address gives, or `None` where the read fails.
pub type MemoryModel = spec_fn(u64, nat) -> Option<Seq<u8>>;

/// The little-endian value at `addr` (a read of exactly `len` bytes).
pub open spec fn mem_value(mem: MemoryModel, addr: u64, len: nat) -> Option<nat> {
    match mem(addr, len) {
        Some(b) => if b.len() == len {
            Some(le_value(b))
        } else {
            None
        },
        None => None,
    }
}

/// The pointer stored at `addr`.
pub open spec fn mem_addr(mem: MemoryModel, addr: u64) -> Option<u64> {
    match mem_value(mem, addr, 8) {
        Some(v) => Some(v as u64),
        None => None,
    }
}

/// The bits of the four bytes at `addr`.
pub open spec fn mem_u32(mem: MemoryModel, addr: u64) -> Option<u32> {
    match mem_value(mem, addr, 4) {
        Some(v) => Some(v as u32),
        None => None,
    }
}

/// The signed integer stored at `addr`.
pub open spec fn mem_i32(mem: MemoryModel, addr: u64) -> Option<i32> {
    match mem_u32(mem, addr) {
        Some(v) => Some(v as i32),
        None => None,
    }
}

/// The NUL-terminated text read from `addr` (empty where the read fails).
pub open spec fn mem_text(mem: MemoryModel, addr: u64) -> Seq<char> {
    match mem(addr, 64) {
        Some(b) => c_string_text(b),
        None => Seq::empty(),
    }
}

/// The map name, when the global variables can be found: `unknown` where they
/// hold no name pointer, else the text the name pointer points to.
pub open spec fn snapshot_map_name(mem: MemoryModel, off: Offsets, base: u64) -> Option<Seq<char>> {
    match mem_addr(mem, base.wrapping_add(off.dw_global_vars)) {
        Some(g) if g != 0 => match mem_addr(mem, g.wrapping_add(0x188)) {
            Some(p) => Some(
                if p == 0 {
                    "unknown"@
                } else {
                    mem_text(mem, p)
                },
            ),
            None => None,
        },
        _ => None,
    }
}

/// What the scan learns of the local player and the entity list before it
/// visits the slots.
pub struct SceneHeader {
    pub local_pawn: u64,
    pub local_team: i32,
    pub local_z_bits: u32,
    pub entity_list_ptr: u64,
    pub entity_list: u64,
}

/// The local player's pawn (not null), team and height, the entity list
/// pointer (not null) and the first list block (not null); `None` where any of
/// these reads fails.
pub open spec fn snapshot_header(mem: MemoryModel, off: Offsets, base: u64) -> Option<SceneHeader> {
    match mem_addr(mem, base.wrapping_add(off.dw_local_player_pawn)) {
        Some(lp) if lp != 0 => match mem_i32(mem, lp.wrapping_add(off.m_i_team_num)) {
            Some(team) => match mem_u32(mem, lp.wrapping_add(off.m_v_old_origin).wrapping_add(8)) {
                Some(z) => match mem_addr(mem, base.wrapping_add(off.dw_entity_list)) {
                    Some(elp) if elp != 0 => match mem_addr(mem, elp.wrapping_add(0x10)) {
                        Some(el) if el != 0 => Some(
                            SceneHeader {
                                local_pawn: lp,
                                local_team: team,
                                local_z_bits: z,
                                entity_list_ptr: elp,
                                entity_list: el,
                            },
                        ),
                        _ => None,
                    },
                    _ => None,
                },
                None => None,
            },
            None => None,
        },
        _ => None,
    }
}

/// The player in entity slot `i`: its controller (not null), the pawn handle
/// it holds (not zero), the list entry and the pawn the handle names (neither
/// null), the controller's team, the pawn's health and life state (alive), its
/// position and view angle, and the controller's teammate colour (`-1` where
/// that read fails). `None` where the slot shows no living player.
pub open spec fn snapshot_player(mem: MemoryModel, off: Offsets, h: SceneHeader, i: u32) -> Option<PlayerInfo> {
    match mem_addr(mem, controller_slot(h.entity_list, i)) {
        Some(c) if c != 0 => match mem_u32(mem, c.wrapping_add(off.m_h_player_pawn)) {
            Some(hd) if hd != 0 => match mem_addr(mem, list_entry_slot(h.entity_list_ptr, hd)) {
                Some(le) if le != 0 => match mem_addr(mem, pawn_slot(le, hd)) {
                    Some(p) if p != 0 => match mem_i32(mem, c.wrapping_add(off.m_i_team_num)) {
                        Some(team) => match mem_i32(mem, p.wrapping_add(off.m_i_health)) {
                            Some(health) => match mem_i32(mem, p.wrapping_add(off.m_life_state)) {
                                Some(life) if life == LIFE_STATE_ALIVE => {
                                    let origin = p.wrapping_add(off.m_v_old_origin);
                                    match (
                                        mem_u32(mem, origin.wrapping_add(4)),
                                        mem_u32(mem, origin),
                                        mem_u32(mem, origin.wrapping_add(8)),
                                        mem_u32(mem, p.wrapping_add(off.m_ang_eye_angles).wrapping_add(4)),
                                    ) {
                                        (Some(x), Some(y), Some(z), Some(angle)) => Some(
                                            PlayerInfo {
                                                team_id: team,
                                                health,
                                                alive: true,
                                                local_player: h.local_pawn == p,
                                                enemy: h.local_team != team,
                                                x_bits: x,
                                                y_bits: y,
                                                z_bits: z,
                                                angle_bits: angle,
                                                local_z_bits: h.local_z_bits,
                                                comp_teammate_color: match mem_i32(
                                                    mem,
                                                    c.wrapping_add(off.m_i_comp_teammate_color),
                                                ) {
                                                    Some(color) => color,
                                                    None => -1i32,
                                                },
                                            },
                                        ),
                                        _ => None,
                                    }
                                },
                                _ => None,
                            },
                            None => None,
                        },
                        None => None,
                    },
                    _ => None,
                },
                _ => None,
            },
            _ => None,
        },
        _ => None,
    }
}

/// The players of the first `n` slots, in slot order.
pub open spec fn snapshot_players(mem: MemoryModel, off: Offsets, h: SceneHeader, n: nat) -> Seq<PlayerInfo>
    decreases n,
{
    if n == 0 {
        Seq::empty()
    } else {
        let before = snapshot_players(mem, off, h, (n - 1) as nat);
        match snapshot_player(mem, off, h, (n - 1) as u32) {
            Some(p) => before.push(p),
            None => before,
        }
    }
}

/// The radar snapshot of memory `mem`, taken in `millis` milliseconds: with
/// no global variables, `unknown` and no players; with a map name but no
/// local player or entity list, that name and no players; else the name, the
/// time, and the players of all 64 slots. An incomplete snapshot has time 0.
pub open spec fn radar_snapshot(mem: MemoryModel, millis: u64, off: Offsets, base: u64) -> RadarView {
    match snapshot_map_name(mem, off, base) {
        None => RadarView { map_name: "unknown"@, tick: 0, players: Seq::empty() },
        Some(name) => match snapshot_header(mem, off, base) {
            None => RadarView { map_name: name, tick: 0, players: Seq::empty() },
            Some(h) => RadarView {
                map_name: name,
                tick: millis,
                players: snapshot_players(mem, off, h, 64),
            },
        },
    }
}

/// The reply that memory `mem` and a clock reading `millis` give to a request.
pub open spec fn memory_reply(mem: MemoryModel, millis: u64, req: ScanRequest) -> ScanReplyView {
    match req {
        ScanRequest::ReadMemory { addr, len } => match mem(addr, len as nat) {
            Some(b) => ScanReplyView::Bytes(b),
            None => ScanReplyView::Failed,
        },
        ScanRequest::ReadBuffer { addr, len } => match mem(addr, len as nat) {
            Some(b) => ScanReplyView::Bytes(b),
            None => ScanReplyView::Failed,
        },
        ScanRequest::ElapsedMillis => ScanReplyView::Millis(millis),
        ScanRequest::Finished => ScanReplyView::Failed,
    }
}

/// The scan `s` after at most `fuel` requests, each answered from `mem`.
pub open spec fn run_scan(s: ScanView, mem: MemoryModel, millis: u64, fuel: nat) -> ScanView
    decreases fuel,
{
    if fuel == 0 || s.phase == ScanPhase::Finished {
        s
    } else {
        run_scan(scan_advance(s, memory_reply(mem, millis, scan_request(s))), mem, millis, (fuel - 1) as nat)
    }
}

/// The most requests that a scan makes before it finishes.
pub open spec fn scan_bound() -> nat {
    777
}

/// How far along a scan is.
pub open spec fn phase_rank(s: ScanView) -> nat {
    let k: nat = (8 + 12 * s.draft.index) as nat;
    match s.phase {
        ScanPhase::GlobalVars => 0,
        ScanPhase::MapNamePtr => 1,
        ScanPhase::MapName => 2,
        ScanPhase::LocalPawn => 3,
        ScanPhase::LocalTeam => 4,
        ScanPhase::LocalZ => 5,
        ScanPhase::EntityListPtr => 6,
        ScanPhase::EntityList => 7,
        ScanPhase::Controller => k,
        ScanPhase::PawnHandle => k + 1,
        ScanPhase::ListEntry => k + 2,
        ScanPhase::Pawn => k + 3,
        ScanPhase::Team => k + 4,
        ScanPhase::Health => k + 5,
        ScanPhase::LifeState => k + 6,
        ScanPhase::PosX => k + 7,
        ScanPhase::PosY => k + 8,
        ScanPhase::PosZ => k + 9,
        ScanPhase::Angle => k + 10,
        ScanPhase::Color => k + 11,
        ScanPhase::Clock => 776,
        ScanPhase::Finished => 777,
    }
}

/// A scan visits only the 64 slots.
pub open spec fn scan_wf(s: ScanView) -> bool {
    s.draft.index < 64
}

/// Every reply moves an unfinished scan forward, so a scan finishes after at
/// most `scan_bound()` replies whatever they are; a finished scan stays as it is.
pub proof fn lemma_scan_progress(s: ScanView, r: ScanReplyView)
    requires
        scan_wf(s),
    ensures
        scan_wf(scan_advance(s, r)),
        phase_rank(s) <= scan_bound(),
        s.phase != ScanPhase::Finished ==> phase_rank(s) < phase_rank(scan_advance(s, r)),
        s.phase == ScanPhase::Finished ==> scan_advance(s, r) == s,
{
}


/// The header that a scan has gathered.
pub open spec fn header_of(s: ScanView) -> SceneHeader {
    SceneHeader {
        local_pawn: s.local_pawn,
        local_team: s.local_team,
        local_z_bits: s.local_z_bits,
        entity_list_ptr: s.entity_list_ptr,
        entity_list: s.entity_list,
    }
}

/// The first `k` reads of the slot being visited succeeded in `mem` and gave
/// what the draft holds.
pub open spec fn draft_reads(mem: MemoryModel, off: Offsets, h: SceneHeader, d: PlayerDraft, k: nat) -> bool {
    let origin = d.pawn.wrapping_add(off.m_v_old_origin);
    &&& k >= 1 ==> mem_addr(mem, controller_slot(h.entity_list, d.index)) == Some(d.controller)
        && d.controller != 0
    &&& k >= 2 ==> mem_u32(mem, d.controller.wrapping_add(off.m_h_player_pawn)) == Some(d.handle)
        && d.handle != 0
    &&& k >= 3 ==> mem_addr(mem, list_entry_slot(h.entity_list_ptr, d.handle)) == Some(d.list_entry)
        && d.list_entry != 0
    &&& k >= 4 ==> mem_addr(mem, pawn_slot(d.list_entry, d.handle)) == Some(d.pawn) && d.pawn != 0
    &&& k >= 5 ==> mem_i32(mem, d.controller.wrapping_add(off.m_i_team_num)) == Some(d.team)
    &&& k >= 6 ==> mem_i32(mem, d.pawn.wrapping_add(off.m_i_health)) == Some(d.health)
    &&& k >= 7 ==> mem_i32(mem, d.pawn.wrapping_add(off.m_life_state)) == Some(LIFE_STATE_ALIVE)
    &&& k >= 8 ==> mem_u32(mem, origin.wrapping_add(4)) == Some(d.x_bits)
    &&& k >= 9 ==> mem_u32(mem, origin) == Some(d.y_bits)
    &&& k >= 10 ==> mem_u32(mem, origin.wrapping_add(8)) == Some(d.z_bits)
    &&& k >= 11 ==> mem_u32(mem, d.pawn.wrapping_add(off.m_ang_eye_angles).wrapping_add(4)) == Some(
        d.angle_bits,
    )
}

/// The first `k` reads of the local player and the entity list succeeded in
/// `mem` and gave what the scan holds.
pub open spec fn local_reads(mem: MemoryModel, off: Offsets, base: u64, s: ScanView, k: nat) -> bool {
    &&& k >= 1 ==> mem_addr(mem, base.wrapping_add(off.dw_local_player_pawn)) == Some(s.local_pawn)
        && s.local_pawn != 0
    &&& k >= 2 ==> mem_i32(mem, s.local_pawn.wrapping_add(off.m_i_team_num)) == Some(s.local_team)
    &&& k >= 3 ==> mem_u32(mem, s.local_pawn.wrapping_add(off.m_v_old_origin).wrapping_add(8)) == Some(
        s.local_z_bits,
    )
    &&& k >= 4 ==> mem_addr(mem, base.wrapping_add(off.dw_entity_list)) == Some(s.entity_list_ptr)
        && s.entity_list_ptr != 0
}

/// The number of reads done in the slot being visited, for the slot phases.
pub open spec fn slot_step(p: ScanPhase) -> Option<nat> {
    match p {
        ScanPhase::Controller => Some(0),
        ScanPhase::PawnHandle => Some(1),
        ScanPhase::ListEntry => Some(2),
        ScanPhase::Pawn => Some(3),
        ScanPhase::Team => Some(4),
        ScanPhase::Health => Some(5),
        ScanPhase::LifeState => Some(6),
        ScanPhase::PosX => Some(7),
        ScanPhase::PosY => Some(8),
        ScanPhase::PosZ => Some(9),
        ScanPhase::Angle => Some(10),
        ScanPhase::Color => Some(11),
        _ => None,
    }
}

/// Everything that scan `s` holds was read from `mem`, along the way that
/// `radar_snapshot` describes.
pub open spec fn scan_follows(s: ScanView, mem: MemoryModel, millis: u64, off: Offsets, base: u64) -> bool {
    let gv = base.wrapping_add(off.dw_global_vars);
    &&& s.offsets == off
    &&& s.client_base == base
    &&& scan_wf(s)
    &&& (slot_step(s.phase) is None && s.phase != ScanPhase::Clock && s.phase != ScanPhase::Finished)
        ==> s.players == Seq::<PlayerInfo>::empty()
    &&& match s.phase {
        ScanPhase::GlobalVars => true,
        ScanPhase::MapNamePtr => mem_addr(mem, gv) == Some(s.global_vars) && s.global_vars != 0,
        ScanPhase::MapName => {
            &&& mem_addr(mem, gv) == Some(s.global_vars)
            &&& s.global_vars != 0
            &&& mem_addr(mem, s.global_vars.wrapping_add(0x188)) == Some(s.name_ptr)
            &&& s.name_ptr != 0
        },
        ScanPhase::LocalPawn => snapshot_map_name(mem, off, base) == Some(s.map_name),
        ScanPhase::LocalTeam => snapshot_map_name(mem, off, base) == Some(s.map_name) && local_reads(
            mem,
            off,
            base,
            s,
            1,
        ),
        ScanPhase::LocalZ => snapshot_map_name(mem, off, base) == Some(s.map_name) && local_reads(
            mem,
            off,
            base,
            s,
            2,
        ),
        ScanPhase::EntityListPtr => snapshot_map_name(mem, off, base) == Some(s.map_name)
            && local_reads(mem, off, base, s, 3),
        ScanPhase::EntityList => snapshot_map_name(mem, off, base) == Some(s.map_name)
            && local_reads(mem, off, base, s, 4),
        ScanPhase::Finished => scan_result(s) == radar_snapshot(mem, millis, off, base),
        ScanPhase::Clock => {
            &&& snapshot_map_name(mem, off, base) == Some(s.map_name)
            &&& snapshot_header(mem, off, base) == Some(header_of(s))
            &&& s.players == snapshot_players(mem, off, header_of(s), 64)
        },
        _ => {
            &&& snapshot_map_name(mem, off, base) == Some(s.map_name)
            &&& snapshot_header(mem, off, base) == Some(header_of(s))
            &&& s.players == snapshot_players(mem, off, header_of(s), s.draft.index as nat)
            &&& draft_reads(mem, off, header_of(s), s.draft, slot_step(s.phase)->0)
        },
    }
}

/// The reply that memory gives is the value the model holds.
proof fn lemma_memory_reply(mem: MemoryModel, millis: u64, addr: u64, len: usize)
    ensures
        reply_value(memory_reply(mem, millis, ScanRequest::ReadMemory { addr, len }), len as nat)
            == mem_value(mem, addr, len as nat),
        len == 8 ==> reply_addr(memory_reply(mem, millis, ScanRequest::ReadMemory { addr, len }))
            == mem_addr(mem, addr),
        len == 4 ==> reply_u32(memory_reply(mem, millis, ScanRequest::ReadMemory { addr, len }))
            == mem_u32(mem, addr),
        len == 4 ==> reply_i32(memory_reply(mem, millis, ScanRequest::ReadMemory { addr, len }))
            == mem_i32(mem, addr),
        len == 64 ==> reply_text(memory_reply(mem, millis, ScanRequest::ReadBuffer { addr, len }))
            == mem_text(mem, addr),
{
}

/// Leaving a slot keeps the players those of the slots visited.
proof fn lemma_next_slot(s: ScanView, mem: MemoryModel, millis: u64, off: Offsets, base: u64, players: Seq<PlayerInfo>)
    requires
        scan_wf(s),
        slot_step(s.phase) is Some,
        snapshot_map_name(mem, off, base) == Some(s.map_name),
        snapshot_header(mem, off, base) == Some(header_of(s)),
        players == snapshot_players(mem, off, header_of(s), (s.draft.index + 1) as nat),
        s.offsets == off,
        s.client_base == base,
    ensures
        scan_follows(crate::scan::next_slot(ScanView { players, ..s }), mem, millis, off, base),
{
}

// One lemma per phase: the reply that memory gives to that phase's request
// keeps `scan_follows`.

proof fn lemma_step_global_vars(s: ScanView, mem: MemoryModel, millis: u64, off: Offsets, base: u64)
    requires
        scan_follows(s, mem, millis, off, base),
        s.phase == ScanPhase::GlobalVars,
    ensures
        scan_follows(scan_advance(s, memory_reply(mem, millis, scan_request(s))), mem, millis, off, base),
{
    match scan_request(s) {
        ScanRequest::ReadMemory { addr, len } => lemma_memory_reply(mem, millis, addr, len),
        ScanRequest::ReadBuffer { addr, len } => lemma_memory_reply(mem, millis, addr, len),
        _ => {},
    }
}

proof fn lemma_step_map_name_ptr(s: ScanView, mem: MemoryModel, millis: u64, off: Offsets, base: u64)
    requires
        scan_follows(s, mem, millis, off, base),
        s.phase == ScanPhase::MapNamePtr,
    ensures
        scan_follows(scan_advance(s, memory_reply(mem, millis, scan_request(s))), mem, millis, off, base),
{
    match scan_request(s) {
        ScanRequest::ReadMemory { addr, len } => lemma_memory_reply(mem, millis, addr, len),
        ScanRequest::ReadBuffer { addr, len } => lemma_memory_reply(mem, millis, addr, len),
        _ => {},
    }
}

proof fn lemma_step_map_name(s: ScanView, mem: MemoryModel, millis: u64, off: Offsets, base: u64)
    requires
        scan_follows(s, mem, millis, off, base),
        s.phase == ScanPhase::MapName,
    ensures
        scan_follows(scan_advance(s, memory_reply(mem, millis, scan_request(s))), mem, millis, off, base),
{
    match scan_request(s) {
        ScanRequest::ReadMemory { addr, len } => lemma_memory_reply(mem, millis, addr, len),
        ScanRequest::ReadBuffer { addr, len } => lemma_memory_reply(mem, millis, addr, len),
        _ => {},
    }
}

proof fn lemma_step_local_pawn(s: ScanView, mem: MemoryModel, millis: u64, off: Offsets, base: u64)
    requires
        scan_follows(s, mem, millis, off, base),
        s.phase == ScanPhase::LocalPawn,
    ensures
        scan_follows(scan_advance(s, memory_reply(mem, millis, scan_request(s))), mem, millis, off, base),
{
    match scan_request(s) {
        ScanRequest::ReadMemory { addr, len } => lemma_memory_reply(mem, millis, addr, len),
        ScanRequest::ReadBuffer { addr, len } => lemma_memory_reply(mem, millis, addr, len),
        _ => {},
    }
}

proof fn lemma_step_local_team(s: ScanView, mem: MemoryModel, millis: u64, off: Offsets, base: u64)
    requires
        scan_follows(s, mem, millis, off, base),
        s.phase == ScanPhase::LocalTeam,
    ensures
        scan_follows(scan_advance(s, memory_reply(mem, millis, scan_request(s))), mem, millis, off, base),
{
    match scan_request(s) {
        ScanRequest::ReadMemory { addr, len } => lemma_memory_reply(mem, millis, addr, len),
        ScanRequest::ReadBuffer { addr, len } => lemma_memory_reply(mem, millis, addr, len),
        _ => {},
    }
}

proof fn lemma_step_local_z(s: ScanView, mem: MemoryModel, millis: u64, off: Offsets, base: u64)
    requires
        scan_follows(s, mem, millis, off, base),
        s.phase == ScanPhase::LocalZ,
    ensures
        scan_follows(scan_advance(s, memory_reply(mem, millis, scan_request(s))), mem, millis, off, base),
{
    match scan_request(s) {
        ScanRequest::ReadMemory { addr, len } => lemma_memory_reply(mem, millis, addr, len),
        ScanRequest::ReadBuffer { addr, len } => lemma_memory_reply(mem, millis, addr, len),
        _ => {},
    }
}

proof fn lemma_step_entity_list_ptr(s: ScanView, mem: MemoryModel, millis: u64, off: Offsets, base: u64)
    requires
        scan_follows(s, mem, millis, off, base),
        s.phase == ScanPhase::EntityListPtr,
    ensures
        scan_follows(scan_advance(s, memory_reply(mem, millis, scan_request(s))), mem, millis, off, base),
{
    match scan_request(s) {
        ScanRequest::ReadMemory { addr, len } => lemma_memory_reply(mem, millis, addr, len),
        ScanRequest::ReadBuffer { addr, len } => lemma_memory_reply(mem, millis, addr, len),
        _ => {},
    }
}

proof fn lemma_step_entity_list(s: ScanView, mem: MemoryModel, millis: u64, off: Offsets, base: u64)
    requires
        scan_follows(s, mem, millis, off, base),
        s.phase == ScanPhase::EntityList,
    ensures
        scan_follows(scan_advance(s, memory_reply(mem, millis, scan_request(s))), mem, millis, off, base),
{
    match scan_request(s) {
        ScanRequest::ReadMemory { addr, len } => lemma_memory_reply(mem, millis, addr, len),
        ScanRequest::ReadBuffer { addr, len } => lemma_memory_reply(mem, millis, addr, len),
        _ => {},
    }
}

proof fn lemma_step_clock(s: ScanView, mem: MemoryModel, millis: u64, off: Offsets, base: u64)
    requires
        scan_follows(s, mem, millis, off, base),
        s.phase == ScanPhase::Clock,
    ensures
        scan_follows(scan_advance(s, memory_reply(mem, millis, scan_request(s))), mem, millis, off, base),
{
    match scan_request(s) {
        ScanRequest::ReadMemory { addr, len } => lemma_memory_reply(mem, millis, addr, len),
        ScanRequest::ReadBuffer { addr, len } => lemma_memory_reply(mem, millis, addr, len),
        _ => {},
    }
}

proof fn lemma_step_controller(s: ScanView, mem: MemoryModel, millis: u64, off: Offsets, base: u64)
    requires
        scan_follows(s, mem, millis, off, base),
        s.phase == ScanPhase::Controller,
    ensures
        scan_follows(scan_advance(s, memory_reply(mem, millis, scan_request(s))), mem, millis, off, base),
{
    match scan_request(s) {
        ScanRequest::ReadMemory { addr, len } => lemma_memory_reply(mem, millis, addr, len),
        ScanRequest::ReadBuffer { addr, len } => lemma_memory_reply(mem, millis, addr, len),
        _ => {},
    }
    let h = header_of(s);
    let i = s.draft.index;
    let after = snapshot_players(mem, off, h, (i + 1) as nat);
    assert(after == match snapshot_player(mem, off, h, i) {
        Some(p) => s.players.push(p),
        None => s.players,
    });
    lemma_next_slot(s, mem, millis, off, base, after);
}

proof fn lemma_step_pawn_handle(s: ScanView, mem: MemoryModel, millis: u64, off: Offsets, base: u64)
    requires
        scan_follows(s, mem, millis, off, base),
        s.phase == ScanPhase::PawnHandle,
    ensures
        scan_follows(scan_advance(s, memory_reply(mem, millis, scan_request(s))), mem, millis, off, base),
{
    match scan_request(s) {
        ScanRequest::ReadMemory { addr, len } => lemma_memory_reply(mem, millis, addr, len),
        ScanRequest::ReadBuffer { addr, len } => lemma_memory_reply(mem, millis, addr, len),
        _ => {},
    }
    let h = header_of(s);
    let i = s.draft.index;
    let after = snapshot_players(mem, off, h, (i + 1) as nat);
    assert(after == match snapshot_player(mem, off, h, i) {
        Some(p) => s.players.push(p),
        None => s.players,
    });
    lemma_next_slot(s, mem, millis, off, base, after);
}

proof fn lemma_step_list_entry(s: ScanView, mem: MemoryModel, millis: u64, off: Offsets, base: u64)
    requires
        scan_follows(s, mem, millis, off, base),
        s.phase == ScanPhase::ListEntry,
    ensures
        scan_follows(scan_advance(s, memory_reply(mem, millis, scan_request(s))), mem, millis, off, base),
{
    match scan_request(s) {
        ScanRequest::ReadMemory { addr, len } => lemma_memory_reply(mem, millis, addr, len),
        ScanRequest::ReadBuffer { addr, len } => lemma_memory_reply(mem, millis, addr, len),
        _ => {},
    }
    let h = header_of(s);
    let i = s.draft.index;
    let after = snapshot_players(mem, off, h, (i + 1) as nat);
    assert(after == match snapshot_player(mem, off, h, i) {
        Some(p) => s.players.push(p),
        None => s.players,
    });
    lemma_next_slot(s, mem, millis, off, base, after);
}

proof fn lemma_step_pawn(s: ScanView, mem: MemoryModel, millis: u64, off: Offsets, base: u64)
    requires
        scan_follows(s, mem, millis, off, base),
        s.phase == ScanPhase::Pawn,
    ensures
        scan_follows(scan_advance(s, memory_reply(mem, millis, scan_request(s))), mem, millis, off, base),
{
    match scan_request(s) {
        ScanRequest::ReadMemory { addr, len } => lemma_memory_reply(mem, millis, addr, len),
        ScanRequest::ReadBuffer { addr, len } => lemma_memory_reply(mem, millis, addr, len),
        _ => {},
    }
    let h = header_of(s);
    let i = s.draft.index;
    let after = snapshot_players(mem, off, h, (i + 1) as nat);
    assert(after == match snapshot_player(mem, off, h, i) {
        Some(p) => s.players.push(p),
        None => s.players,
    });
    lemma_next_slot(s, mem, millis, off, base, after);
}

proof fn lemma_step_team(s: ScanView, mem: MemoryModel, millis: u64, off: Offsets, base: u64)
    requires
        scan_follows(s, mem, millis, off, base),
        s.phase == ScanPhase::Team,
    ensures
        scan_follows(scan_advance(s, memory_reply(mem, millis, scan_request(s))), mem, millis, off, base),
{
    match scan_request(s) {
        ScanRequest::ReadMemory { addr, len } => lemma_memory_reply(mem, millis, addr, len),
        ScanRequest::ReadBuffer { addr, len } => lemma_memory_reply(mem, millis, addr, len),
        _ => {},
    }
    let h = header_of(s);
    let i = s.draft.index;
    let after = snapshot_players(mem, off, h, (i + 1) as nat);
    assert(after == match snapshot_player(mem, off, h, i) {
        Some(p) => s.players.push(p),
        None => s.players,
    });
    lemma_next_slot(s, mem, millis, off, base, after);
}

proof fn lemma_step_health(s: ScanView, mem: MemoryModel, millis: u64, off: Offsets, base: u64)
    requires
        scan_follows(s, mem, millis, off, base),
        s.phase == ScanPhase::Health,
    ensures
        scan_follows(scan_advance(s, memory_reply(mem, millis, scan_request(s))), mem, millis, off, base),
{
    match scan_request(s) {
        ScanRequest::ReadMemory { addr, len } => lemma_memory_reply(mem, millis, addr, len),
        ScanRequest::ReadBuffer { addr, len } => lemma_memory_reply(mem, millis, addr, len),
        _ => {},
    }
    let h = header_of(s);
    let i = s.draft.index;
    let after = snapshot_players(mem, off, h, (i + 1) as nat);
    assert(after == match snapshot_player(mem, off, h, i) {
        Some(p) => s.players.push(p),
        None => s.players,
    });
    lemma_next_slot(s, mem, millis, off, base, after);
}

proof fn lemma_step_life_state(s: ScanView, mem: MemoryModel, millis: u64, off: Offsets, base: u64)
    requires
        scan_follows(s, mem, millis, off, base),
        s.phase == ScanPhase::LifeState,
    ensures
        scan_follows(scan_advance(s, memory_reply(mem, millis, scan_request(s))), mem, millis, off, base),
{
    match scan_request(s) {
        ScanRequest::ReadMemory { addr, len } => lemma_memory_reply(mem, millis, addr, len),
        ScanRequest::ReadBuffer { addr, len } => lemma_memory_reply(mem, millis, addr, len),
        _ => {},
    }
    let h = header_of(s);
    let i = s.draft.index;
    let after = snapshot_players(mem, off, h, (i + 1) as nat);
    assert(after == match snapshot_player(mem, off, h, i) {
        Some(p) => s.players.push(p),
        None => s.players,
    });
    lemma_next_slot(s, mem, millis, off, base, after);
}

proof fn lemma_step_pos_x(s: ScanView, mem: MemoryModel, millis: u64, off: Offsets, base: u64)
    requires
        scan_follows(s, mem, millis, off, base),
        s.phase == ScanPhase::PosX,
    ensures
        scan_follows(scan_advance(s, memory_reply(mem, millis, scan_request(s))), mem, millis, off, base),
{
    match scan_request(s) {
        ScanRequest::ReadMemory { addr, len } => lemma_memory_reply(mem, millis, addr, len),
        ScanRequest::ReadBuffer { addr, len } => lemma_memory_reply(mem, millis, addr, len),
        _ => {},
    }
    let h = header_of(s);
    let i = s.draft.index;
    let after = snapshot_players(mem, off, h, (i + 1) as nat);
    assert(after == match snapshot_player(mem, off, h, i) {
        Some(p) => s.players.push(p),
        None => s.players,
    });
    lemma_next_slot(s, mem, millis, off, base, after);
}

proof fn lemma_step_pos_y(s: ScanView, mem: MemoryModel, millis: u64, off: Offsets, base: u64)
    requires
        scan_follows(s, mem, millis, off, base),
        s.phase == ScanPhase::PosY,
    ensures
        scan_follows(scan_advance(s, memory_reply(mem, millis, scan_request(s))), mem, millis, off, base),
{
    match scan_request(s) {
        ScanRequest::ReadMemory { addr, len } => lemma_memory_reply(mem, millis, addr, len),
        ScanRequest::ReadBuffer { addr, len } => lemma_memory_reply(mem, millis, addr, len),
        _ => {},
    }
    let h = header_of(s);
    let i = s.draft.index;
    let after = snapshot_players(mem, off, h, (i + 1) as nat);
    assert(after == match snapshot_player(mem, off, h, i) {
        Some(p) => s.players.push(p),
        None => s.players,
    });
    lemma_next_slot(s, mem, millis, off, base, after);
}

proof fn lemma_step_pos_z(s: ScanView, mem: MemoryModel, millis: u64, off: Offsets, base: u64)
    requires
        scan_follows(s, mem, millis, off, base),
        s.phase == ScanPhase::PosZ,
    ensures
        scan_follows(scan_advance(s, memory_reply(mem, millis, scan_request(s))), mem, millis, off, base),
{
    match scan_request(s) {
        ScanRequest::ReadMemory { addr, len } => lemma_memory_reply(mem, millis, addr, len),
        ScanRequest::ReadBuffer { addr, len } => lemma_memory_reply(mem, millis, addr, len),
        _ => {},
    }
    let h = header_of(s);
    let i = s.draft.index;
    let after = snapshot_players(mem, off, h, (i + 1) as nat);
    assert(after == match snapshot_player(mem, off, h, i) {
        Some(p) => s.players.push(p),
        None => s.players,
    });
    lemma_next_slot(s, mem, millis, off, base, after);
}

proof fn lemma_step_angle(s: ScanView, mem: MemoryModel, millis: u64, off: Offsets, base: u64)
    requires
        scan_follows(s, mem, millis, off, base),
        s.phase == ScanPhase::Angle,
    ensures
        scan_follows(scan_advance(s, memory_reply(mem, millis, scan_request(s))), mem, millis, off, base),
{
    match scan_request(s) {
        ScanRequest::ReadMemory { addr, len } => lemma_memory_reply(mem, millis, addr, len),
        ScanRequest::ReadBuffer { addr, len } => lemma_memory_reply(mem, millis, addr, len),
        _ => {},
    }
    let h = header_of(s);
    let i = s.draft.index;
    let after = snapshot_players(mem, off, h, (i + 1) as nat);
    assert(after == match snapshot_player(mem, off, h, i) {
        Some(p) => s.players.push(p),
        None => s.players,
    });
    lemma_next_slot(s, mem, millis, off, base, after);
}

proof fn lemma_step_color(s: ScanView, mem: MemoryModel, millis: u64, off: Offsets, base: u64)
    requires
        scan_follows(s, mem, millis, off, base),
        s.phase == ScanPhase::Color,
    ensures
        scan_follows(scan_advance(s, memory_reply(mem, millis, scan_request(s))), mem, millis, off, base),
{
    match scan_request(s) {
        ScanRequest::ReadMemory { addr, len } => lemma_memory_reply(mem, millis, addr, len),
        ScanRequest::ReadBuffer { addr, len } => lemma_memory_reply(mem, millis, addr, len),
        _ => {},
    }
    let h = header_of(s);
    let i = s.draft.index;
    let after = snapshot_players(mem, off, h, (i + 1) as nat);
    assert(after == match snapshot_player(mem, off, h, i) {
        Some(p) => s.players.push(p),
        None => s.players,
    });
    let r = memory_reply(mem, millis, scan_request(s));
    let color = match reply_i32(r) {
        Some(c) => c,
        None => -1i32,
    };
    assert(snapshot_player(mem, off, h, i) == Some(crate::scan::drafted_player(s, color)));
    lemma_next_slot(s, mem, millis, off, base, after);
}

/// One request answered from `mem` keeps the scan on the way to the snapshot.
proof fn lemma_follow_step(s: ScanView, mem: MemoryModel, millis: u64, off: Offsets, base: u64)
    requires
        scan_follows(s, mem, millis, off, base),
        s.phase != ScanPhase::Finished,
    ensures
        scan_follows(scan_advance(s, memory_reply(mem, millis, scan_request(s))), mem, millis, off, base),
{
    match s.phase {
        ScanPhase::GlobalVars => lemma_step_global_vars(s, mem, millis, off, base),
        ScanPhase::MapNamePtr => lemma_step_map_name_ptr(s, mem, millis, off, base),
        ScanPhase::MapName => lemma_step_map_name(s, mem, millis, off, base),
        ScanPhase::LocalPawn => lemma_step_local_pawn(s, mem, millis, off, base),
        ScanPhase::LocalTeam => lemma_step_local_team(s, mem, millis, off, base),
        ScanPhase::LocalZ => lemma_step_local_z(s, mem, millis, off, base),
        ScanPhase::EntityListPtr => lemma_step_entity_list_ptr(s, mem, millis, off, base),
        ScanPhase::EntityList => lemma_step_entity_list(s, mem, millis, off, base),
        ScanPhase::Clock => lemma_step_clock(s, mem, millis, off, base),
        ScanPhase::Controller => lemma_step_controller(s, mem, millis, off, base),
        ScanPhase::PawnHandle => lemma_step_pawn_handle(s, mem, millis, off, base),
        ScanPhase::ListEntry => lemma_step_list_entry(s, mem, millis, off, base),
        ScanPhase::Pawn => lemma_step_pawn(s, mem, millis, off, base),
        ScanPhase::Team => lemma_step_team(s, mem, millis, off, base),
        ScanPhase::Health => lemma_step_health(s, mem, millis, off, base),
        ScanPhase::LifeState => lemma_step_life_state(s, mem, millis, off, base),
        ScanPhase::PosX => lemma_step_pos_x(s, mem, millis, off, base),
        ScanPhase::PosY => lemma_step_pos_y(s, mem, millis, off, base),
        ScanPhase::PosZ => lemma_step_pos_z(s, mem, millis, off, base),
        ScanPhase::Angle => lemma_step_angle(s, mem, millis, off, base),
        ScanPhase::Color => lemma_step_color(s, mem, millis, off, base),
        ScanPhase::Finished => {},
    }
}

proof fn lemma_run_follows(s: ScanView, mem: MemoryModel, millis: u64, off: Offsets, base: u64, fuel: nat)
    requires
        scan_follows(s, mem, millis, off, base),
        phase_rank(s) + fuel >= scan_bound(),
    ensures
        run_scan(s, mem, millis, fuel).phase == ScanPhase::Finished,
        scan_result(run_scan(s, mem, millis, fuel)) == radar_snapshot(mem, millis, off, base),
    decreases fuel,
{
    if s.phase != ScanPhase::Finished {
        let r = memory_reply(mem, millis, scan_request(s));
        lemma_scan_progress(s, r);
        lemma_follow_step(s, mem, millis, off, base);
        lemma_run_follows(scan_advance(s, r), mem, millis, off, base, (fuel - 1) as nat);
    }
}

/// A scan whose every read is answered from memory `mem`, and whose clock is
/// answered with `millis`, finishes within `scan_bound()` requests with
/// exactly the snapshot `radar_snapshot(mem, millis, ..)` of that memory.
pub proof fn lemma_scan_takes_snapshot(off: Offsets, base: u64, mem: MemoryModel, millis: u64)
    ensures
        run_scan(initial_scan(off, base), mem, millis, scan_bound()).phase == ScanPhase::Finished,
        scan_result(run_scan(initial_scan(off, base), mem, millis, scan_bound())) == radar_snapshot(
            mem,
            millis,
            off,
            base,
        ),
{
    lemma_run_follows(initial_scan(off, base), mem, millis, off, base, scan_bound());
}

/// The players of the first `n` slots number at most `n`, and all of them are alive.
pub proof fn lemma_snapshot_players_alive(mem: MemoryModel, off: Offsets, h: SceneHeader, n: nat)
    ensures
        snapshot_players(mem, off, h, n).len() <= n,
        forall|j: int|
            0 <= j < snapshot_players(mem, off, h, n).len() ==> (#[trigger] snapshot_players(
                mem,
                off,
                h,
                n,
            )[j]).alive,
    decreases n,
{
    if n > 0 {
        lemma_snapshot_players_alive(mem, off, h, (n - 1) as nat);
    }
}

/// A snapshot holds at most one player per slot, all of them alive; one that
/// has players is complete (it has the time the scan took), and one that is not
/// complete has neither players nor a time.
pub proof fn lemma_snapshot_shape(mem: MemoryModel, millis: u64, off: Offsets, base: u64)
    ensures
        radar_snapshot(mem, millis, off, base).players.len() <= 64,
        forall|j: int|
            0 <= j < radar_snapshot(mem, millis, off, base).players.len() ==> (
            #[trigger] radar_snapshot(mem, millis, off, base).players[j]).alive,
        snapshot_header(mem, off, base) is None ==> radar_snapshot(mem, millis, off, base).players.len()
            == 0 && radar_snapshot(mem, millis, off, base).tick == 0,
        snapshot_map_name(mem, off, base) is None ==> radar_snapshot(mem, millis, off, base).map_name
            == "unknown"@,
{
    if let Some(h) = snapshot_header(mem, off, base) {
        lemma_snapshot_players_alive(mem, off, h, 64);
    }
}

} // verus!
