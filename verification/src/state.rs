//! Per-connection session state and the small decisions the connection
//! worker takes from it. Time and the asymmetric key live with the
//! caller; what is here are the plain values the play phase reads and
//! writes.

use vstd::prelude::*;

use crate::packet::server::Handshake;
use crate::packet::server::NextState;
use crate::slot::Slot;
use crate::uuid::Uuid;

verus! {

/// After the handshake: drop the connection (status) or join (login).
#[derive(Debug, Clone, Copy, PartialEq, Eq, Structural)]
pub enum NextConnect {
    Disconnect,
    Join,
}

/// A position, as IEEE-754 double bit patterns.
#[derive(Debug, Clone, Copy, PartialEq, Eq, Structural)]
pub struct Coordinate {
    pub x: u64,
    pub y: u64,
    pub z: u64,
}

/// A view direction, as IEEE-754 single bit patterns.
#[derive(Debug, Clone, Copy, PartialEq, Eq, Structural)]
pub struct Rotation {
    pub yaw: u32,
    pub pitch: u32,
}

/// The player's inventory: 46 slots and the selected hotbar index.
#[derive(Debug, Clone)]
pub struct Inventory {
    pub slots: Vec<Option<Slot>>,
    pub selected: usize,
}

impl Inventory {
    /// 46 slots, always.
    pub open spec fn wf(&self) -> bool {
        self.slots@.len() == 46
    }

    /// An empty inventory with the first hotbar slot selected.
    pub fn new() -> (r: Inventory)
        ensures
            r.wf(),
            r.selected == 0,
            forall|i: int| 0 <= i < 46 ==> #[trigger] r.slots@[i] is None,
    {
        let mut slots: Vec<Option<Slot>> = Vec::new();
        let mut i: usize = 0;
        while i < 46
            invariant
                i <= 46,
                slots@.len() == i,
                forall|k: int| 0 <= k < i ==> #[trigger] slots@[k] is None,
            decreases 46 - i,
        {
            slots.push(None);
            i = i + 1;
        }
        Inventory { slots, selected: 0 }
    }

    /// Put an item (or nothing) into a slot.
    pub fn set_item(&mut self, slot_number: usize, item: Option<Slot>)
        requires
            old(self).wf(),
            slot_number < 46,
        ensures
            final(self).wf(),
            final(self).slots@ == old(self).slots@.update(slot_number as int, item),
            final(self).selected == old(self).selected,
    {
        self.slots.set(slot_number, item);
    }
}

/// The per-connection session: identity once login settles it, the
/// play-phase position and inventory, and the chunk the client last
/// stood in.
#[derive(Debug, Clone)]
pub struct State {
    pub name: Option<String>,
    pub uuid: Option<Uuid>,
    pub crack: bool,
    pub coordinate: Coordinate,
    pub rotation: Rotation,
    pub inventory: Inventory,
    pub last_chunk_x: i32,
    pub last_chunk_z: i32,
}

impl State {
    pub open spec fn wf(&self) -> bool {
        self.inventory.wf()
    }

    /// A fresh session: anonymous, at the origin, empty-handed.
    pub fn new() -> (r: State)
        ensures
            r.wf(),
            r.name is None,
            r.uuid is None,
            !r.crack,
    {
        State {
            name: None,
            uuid: None,
            crack: false,
            coordinate: Coordinate { x: 0, y: 0, z: 0 },
            rotation: Rotation { yaw: 0, pitch: 0 },
            inventory: Inventory::new(),
            last_chunk_x: 0,
            last_chunk_z: 0,
        }
    }
}

/// What follows a handshake: status ends the connection, login joins.
pub fn handshake_next(h: &Handshake) -> (r: NextConnect)
    ensures
        r == (match h.next_state {
            NextState::Status => NextConnect::Disconnect,
            NextState::Login => NextConnect::Join,
        }),
{
    match h.next_state {
        NextState::Status => NextConnect::Disconnect,
        NextState::Login => NextConnect::Join,
    }
}

/// Whether the heartbeat is due: more than ten seconds idle.
pub fn should_keep_alive(elapsed_secs: u64) -> (r: bool)
    ensures
        r == (elapsed_secs > 10),
{
    elapsed_secs > 10
}

/// The Chebyshev distance between two chunk coordinates.
pub open spec fn chunk_distance_spec(x1: int, z1: int, x2: int, z2: int) -> int {
    let dx = if x1 - x2 >= 0 {
        x1 - x2
    } else {
        x2 - x1
    };
    let dz = if z1 - z2 >= 0 {
        z1 - z2
    } else {
        z2 - z1
    };
    if dx >= dz {
        dx
    } else {
        dz
    }
}

/// The Chebyshev distance between two chunk coordinates.
pub fn get_chunk_distance(x1: i32, z1: i32, x2: i32, z2: i32) -> (r: u32)
    ensures
        r == chunk_distance_spec(x1 as int, z1 as int, x2 as int, z2 as int),
{
    let x1l = x1 as i64;
    let z1l = z1 as i64;
    let x2l = x2 as i64;
    let z2l = z2 as i64;
    let dx: i64 = if x1l - x2l >= 0 {
        x1l - x2l
    } else {
        x2l - x1l
    };
    let dz: i64 = if z1l - z2l >= 0 {
        z1l - z2l
    } else {
        z2l - z1l
    };
    let m = if dx >= dz {
        dx
    } else {
        dz
    };
    m as u32
}

/// Whether a chunk in view of the new center was out of view of the old
/// one: it must be sent.
pub fn chunk_needs_load(
    x: i32,
    z: i32,
    last_cx: i32,
    last_cz: i32,
    cx: i32,
    cz: i32,
    view_distance: u32,
) -> (r: bool)
    ensures
        r == (chunk_distance_spec(x as int, z as int, last_cx as int, last_cz as int)
            > view_distance && chunk_distance_spec(x as int, z as int, cx as int, cz as int)
            <= view_distance),
{
    let was = get_chunk_distance(x, z, last_cx, last_cz) <= view_distance;
    let should = get_chunk_distance(x, z, cx, cz) <= view_distance;
    !was && should
}

/// Whether a chunk in view of the old center fell out of view of the
/// new one: it must be unloaded.
pub fn chunk_needs_unload(
    x: i32,
    z: i32,
    last_cx: i32,
    last_cz: i32,
    cx: i32,
    cz: i32,
    view_distance: u32,
) -> (r: bool)
    ensures
        r == (chunk_distance_spec(x as int, z as int, last_cx as int, last_cz as int)
            <= view_distance && chunk_distance_spec(x as int, z as int, cx as int, cz as int)
            > view_distance),
{
    let was = get_chunk_distance(x, z, last_cx, last_cz) <= view_distance;
    let should = get_chunk_distance(x, z, cx, cz) <= view_distance;
    was && !should
}

} // verus!
