//! The fixed packets the server sends a player on join, and the
//! heartbeat: each builder pins every field it sends.

use vstd::prelude::*;

use crate::packet::client::AddPlayer;
use crate::packet::client::DeclareRecipes;
use crate::packet::client::EntityStatus;
use crate::packet::client::HeldItemChange;
use crate::packet::client::JoinGame;
use crate::packet::client::KeepAlive;
use crate::packet::client::PlayPacket;
use crate::packet::client::PlayerInfo;
use crate::packet::client::PlayerInfoAction;
use crate::packet::client::PlayerPositionAndLook;
use crate::packet::client::SpawnPosition;
use crate::packet::client::Tags;
use crate::packet::client::UnlockRecipes;
use crate::packet::client::UpdateViewPosition;
use crate::position::Position;
use crate::protocol::ProtocolWrite;
use crate::uuid::Uuid;
use crate::var::Var;

verus! {

/// The world the player joins: creative mode on the flat level.
pub fn join_game() -> (r: PlayPacket)
    ensures
        r matches PlayPacket::JoinGame(p) && p.entity_id == 0 && p.game_mode == 1 && p.dimension
            == 0 && p.hashed_seed == 0 && p.max_players == 3 && p.level_type@ == "flat"@
            && p.view_distance == Var(4i32) && !p.reduced_debug_info && p.enable_respawn_screen,
        r.valid(),
{
    proof {
        reveal_strlit("flat");
        vstd::utf8::is_ascii_chars_encode_utf8("flat"@);
    }
    let level_type = <String as vstd::string::StringExecFns>::from_str("flat");
    PlayPacket::JoinGame(
        JoinGame {
            entity_id: 0,
            game_mode: 1,
            dimension: 0,
            hashed_seed: 0,
            max_players: 3,
            level_type,
            view_distance: Var(4),
            reduced_debug_info: false,
            enable_respawn_screen: true,
        },
    )
}

/// Select the first hotbar slot.
pub fn held_item_change() -> (r: PlayPacket)
    ensures
        r matches PlayPacket::HeldItemChange(p) && p.slot == 0,
        r.valid(),
{
    PlayPacket::HeldItemChange(HeldItemChange { slot: 0 })
}

/// An empty recipe catalogue.
pub fn declare_recipes() -> (r: PlayPacket)
    ensures
        r matches PlayPacket::DeclareRecipes(p) && p.recipes@.len() == 0,
        r.valid(),
{
    PlayPacket::DeclareRecipes(DeclareRecipes { recipes: Vec::new() })
}

/// Empty id groups.
pub fn tags() -> (r: PlayPacket)
    ensures
        r matches PlayPacket::Tags(p) && p.block_tags@.len() == 0 && p.item_tags@.len() == 0
            && p.fluid_tags@.len() == 0 && p.entity_tags@.len() == 0,
        r.valid(),
{
    PlayPacket::Tags(
        Tags {
            block_tags: Vec::new(),
            item_tags: Vec::new(),
            fluid_tags: Vec::new(),
            entity_tags: Vec::new(),
        },
    )
}

/// The join status event.
pub fn entity_status() -> (r: PlayPacket)
    ensures
        r matches PlayPacket::EntityStatus(p) && p.entity_id == 0 && p.entity_status == 2,
        r.valid(),
{
    PlayPacket::EntityStatus(EntityStatus { entity_id: 0, entity_status: 2 })
}

/// An open crafting book with nothing unlocked.
pub fn unlock_recipes() -> (r: PlayPacket)
    ensures
        r matches PlayPacket::UnlockRecipes(p) && p.action == Var(0i32)
            && p.crafting_recipe_book_open && !p.crafting_recipe_book_filter_active
            && !p.smelting_recipe_book_open && !p.smelting_recipe_book_filter_active
            && p.recipe_ids@.len() == 0 && (p.additional_recipe_ids matches Some(a) && a@.len()
            == 0),
        r.valid(),
{
    PlayPacket::UnlockRecipes(
        UnlockRecipes {
            action: Var(0),
            crafting_recipe_book_open: true,
            crafting_recipe_book_filter_active: false,
            smelting_recipe_book_open: false,
            smelting_recipe_book_filter_active: false,
            recipe_ids: Vec::new(),
            additional_recipe_ids: Some(Vec::new()),
        },
    )
}

/// Teleport the player to the spawn column; the coordinate and angle
/// words are the IEEE-754 patterns of 0.0 and 64.0.
pub fn play_position_and_look() -> (r: PlayPacket)
    ensures
        r matches PlayPacket::PlayerPositionAndLook(p) && p.x == 0 && p.y == 0x4050_0000_0000_0000u64
            && p.z == 0 && p.yaw == 0 && p.pitch == 0 && p.flags == 0 && p.teleport_id == Var(
            0i32,
        ),
        r.valid(),
{
    PlayPacket::PlayerPositionAndLook(
        PlayerPositionAndLook {
            x: 0,
            y: 0x4050_0000_0000_0000,
            z: 0,
            yaw: 0,
            pitch: 0,
            flags: 0,
            teleport_id: Var(0),
        },
    )
}

/// List the newly joined player.
pub fn player_info(uuid: Uuid, name: String) -> (r: PlayPacket)
    requires
        name.valid(),
    ensures
        r matches PlayPacket::PlayerInfo(p) && (p.action matches PlayerInfoAction::AddPlayer(v)
            && v@.len() == 1 && v@[0].uuid == uuid && v@[0].name@ == name@ && v@[0].props@.len()
            == 0 && v@[0].gamemode == Var(0i32) && v@[0].ping == Var(1i32)
            && !v@[0].has_display_name && v@[0].display_name is None),
        r.valid(),
{
    let mut entries: Vec<AddPlayer> = Vec::new();
    entries.push(
        AddPlayer {
            uuid,
            name,
            props: Vec::new(),
            gamemode: Var(0),
            ping: Var(1),
            has_display_name: false,
            display_name: None,
        },
    );
    PlayPacket::PlayerInfo(PlayerInfo { action: PlayerInfoAction::AddPlayer(entries) })
}

/// Center the client's view on the spawn chunk.
pub fn update_view_position() -> (r: PlayPacket)
    ensures
        r matches PlayPacket::UpdateViewPosition(p) && p.chunk_x == Var(0i32) && p.chunk_z == Var(
            1i32,
        ),
        r.valid(),
{
    PlayPacket::UpdateViewPosition(UpdateViewPosition { chunk_x: Var(0), chunk_z: Var(1) })
}

/// The world spawn point.
pub fn spawn_position() -> (r: PlayPacket)
    ensures
        r matches PlayPacket::SpawnPosition(p) && p.location == (Position { x: 0, y: 64, z: 0 }),
        r.valid(),
{
    PlayPacket::SpawnPosition(SpawnPosition { location: Position { x: 0, y: 64, z: 0 } })
}

/// The heartbeat, carrying the moment it was sent.
pub fn keep_alive(id: i64) -> (r: PlayPacket)
    ensures
        r matches PlayPacket::KeepAlive(p) && p.keep_alive_id == id,
        r.valid(),
{
    PlayPacket::KeepAlive(KeepAlive { keep_alive_id: id })
}

} // verus!
