//! Clientbound packets: what the server sends, one enum per phase, each
//! variant behind its fixed packet id. These are encode-only: the server
//! never reads them back. Fields the reference protocol carries as
//! floating point are held as their IEEE-754 bit patterns.

use vstd::prelude::*;

use crate::heightmap::Heightmaps;
use crate::heightmap::Nbt;
use crate::position::Position;
use crate::protocol::ProtocolWrite;
use crate::uuid::Uuid;
use crate::var::Var;

verus! {

/// The status document, as a JSON string.
#[derive(Debug, Clone)]
pub struct SlpResponse {
    pub json_response: String,
}

impl ProtocolWrite for SlpResponse {
    open spec fn valid(&self) -> bool {
        self.json_response.valid()
    }

    open spec fn wire(&self) -> Seq<u8> {
        self.json_response.wire()
    }

    fn proto_len(&self) -> (n: usize) {
        self.json_response.proto_len()
    }

    fn proto_encode(&self, dst: &mut Vec<u8>) {
        self.json_response.proto_encode(dst);
        assert(dst@ =~= old(dst)@ + self.wire());
    }
}

/// The echoed status ping.
#[derive(Debug, Clone)]
pub struct Pong {
    pub payload: u64,
}

impl ProtocolWrite for Pong {
    open spec fn valid(&self) -> bool {
        true
    }

    open spec fn wire(&self) -> Seq<u8> {
        self.payload.wire()
    }

    fn proto_len(&self) -> (n: usize) {
        self.payload.proto_len()
    }

    fn proto_encode(&self, dst: &mut Vec<u8>) {
        self.payload.proto_encode(dst);
        assert(dst@ =~= old(dst)@ + self.wire());
    }
}

/// A login-phase disconnect, with a JSON chat reason.
#[derive(Debug, Clone)]
pub struct Disconnect {
    pub chat: String,
}

impl ProtocolWrite for Disconnect {
    open spec fn valid(&self) -> bool {
        self.chat.valid()
    }

    open spec fn wire(&self) -> Seq<u8> {
        self.chat.wire()
    }

    fn proto_len(&self) -> (n: usize) {
        self.chat.proto_len()
    }

    fn proto_encode(&self, dst: &mut Vec<u8>) {
        self.chat.proto_encode(dst);
        assert(dst@ =~= old(dst)@ + self.wire());
    }
}

/// The server's half of the key exchange: its public key and a
/// token the client must echo under it.
#[derive(Debug, Clone)]
pub struct EncryptionRequest {
    pub server_id: String,
    pub public_key: Vec<u8>,
    pub verify_token: Vec<u8>,
}

impl ProtocolWrite for EncryptionRequest {
    open spec fn valid(&self) -> bool {
        self.server_id.valid() && self.public_key.valid() && self.verify_token.valid()
    }

    open spec fn wire(&self) -> Seq<u8> {
        self.server_id.wire() + self.public_key.wire() + self.verify_token.wire()
    }

    fn proto_len(&self) -> (n: usize) {
        self.server_id.proto_len() + self.public_key.proto_len() + self.verify_token.proto_len()
    }

    fn proto_encode(&self, dst: &mut Vec<u8>) {
        self.server_id.proto_encode(dst);
        self.public_key.proto_encode(dst);
        self.verify_token.proto_encode(dst);
        assert(dst@ =~= old(dst)@ + self.wire());
    }
}

/// Login is complete: the player's identity.
#[derive(Debug, Clone)]
pub struct LoginSuccess {
    pub uuid: String,
    pub username: String,
}

impl ProtocolWrite for LoginSuccess {
    open spec fn valid(&self) -> bool {
        self.uuid.valid() && self.username.valid()
    }

    open spec fn wire(&self) -> Seq<u8> {
        self.uuid.wire() + self.username.wire()
    }

    fn proto_len(&self) -> (n: usize) {
        self.uuid.proto_len() + self.username.proto_len()
    }

    fn proto_encode(&self, dst: &mut Vec<u8>) {
        self.uuid.proto_encode(dst);
        self.username.proto_encode(dst);
        assert(dst@ =~= old(dst)@ + self.wire());
    }
}

/// Negotiate the compression threshold; a negative value disables
/// compression.
#[derive(Debug, Clone)]
pub struct SetCompression {
    pub thresshold: Var<i32>,
}

impl ProtocolWrite for SetCompression {
    open spec fn valid(&self) -> bool {
        true
    }

    open spec fn wire(&self) -> Seq<u8> {
        self.thresshold.wire()
    }

    fn proto_len(&self) -> (n: usize) {
        self.thresshold.proto_len()
    }

    fn proto_encode(&self, dst: &mut Vec<u8>) {
        self.thresshold.proto_encode(dst);
        assert(dst@ =~= old(dst)@ + self.wire());
    }
}

/// One node of the command tree.
#[derive(Debug, Clone)]
pub struct Node {
    pub flags: u8,
    pub children: Vec<Var<i32>>,
    pub redirect_node: Option<Var<i32>>,
    pub name: Option<String>,
    pub parser: Option<String>,
    pub suggestions_type: Option<String>,
}

impl ProtocolWrite for Node {
    open spec fn valid(&self) -> bool {
        self.children.valid() && self.redirect_node.valid() && self.name.valid() && self.parser.valid() && self.suggestions_type.valid()
    }

    open spec fn wire(&self) -> Seq<u8> {
        self.flags.wire() + self.children.wire() + self.redirect_node.wire() + self.name.wire() + self.parser.wire() + self.suggestions_type.wire()
    }

    fn proto_len(&self) -> (n: usize) {
        self.flags.proto_len() + self.children.proto_len() + self.redirect_node.proto_len() + self.name.proto_len() + self.parser.proto_len() + self.suggestions_type.proto_len()
    }

    fn proto_encode(&self, dst: &mut Vec<u8>) {
        self.flags.proto_encode(dst);
        self.children.proto_encode(dst);
        self.redirect_node.proto_encode(dst);
        self.name.proto_encode(dst);
        self.parser.proto_encode(dst);
        self.suggestions_type.proto_encode(dst);
        assert(dst@ =~= old(dst)@ + self.wire());
    }
}

/// The command tree.
#[derive(Debug, Clone)]
pub struct DeclareCommands {
    pub nodes: Vec<Node>,
    pub root_index: Var<i32>,
}

impl ProtocolWrite for DeclareCommands {
    open spec fn valid(&self) -> bool {
        self.nodes.valid()
    }

    open spec fn wire(&self) -> Seq<u8> {
        self.nodes.wire() + self.root_index.wire()
    }

    fn proto_len(&self) -> (n: usize) {
        self.nodes.proto_len() + self.root_index.proto_len()
    }

    fn proto_encode(&self, dst: &mut Vec<u8>) {
        self.nodes.proto_encode(dst);
        self.root_index.proto_encode(dst);
        assert(dst@ =~= old(dst)@ + self.wire());
    }
}

/// An entity status event.
#[derive(Debug, Clone)]
pub struct EntityStatus {
    pub entity_id: i32,
    pub entity_status: i8,
}

impl ProtocolWrite for EntityStatus {
    open spec fn valid(&self) -> bool {
        true
    }

    open spec fn wire(&self) -> Seq<u8> {
        self.entity_id.wire() + self.entity_status.wire()
    }

    fn proto_len(&self) -> (n: usize) {
        self.entity_id.proto_len() + self.entity_status.proto_len()
    }

    fn proto_encode(&self, dst: &mut Vec<u8>) {
        self.entity_id.proto_encode(dst);
        self.entity_status.proto_encode(dst);
        assert(dst@ =~= old(dst)@ + self.wire());
    }
}

/// The periodic heartbeat; the client echoes the id.
#[derive(Debug, Clone)]
pub struct KeepAlive {
    pub keep_alive_id: i64,
}

impl ProtocolWrite for KeepAlive {
    open spec fn valid(&self) -> bool {
        true
    }

    open spec fn wire(&self) -> Seq<u8> {
        self.keep_alive_id.wire()
    }

    fn proto_len(&self) -> (n: usize) {
        self.keep_alive_id.proto_len()
    }

    fn proto_encode(&self, dst: &mut Vec<u8>) {
        self.keep_alive_id.proto_encode(dst);
        assert(dst@ =~= old(dst)@ + self.wire());
    }
}

/// Light levels for a chunk column.
#[derive(Debug, Clone)]
pub struct UpdateLight {
    pub chunk_x: Var<i32>,
    pub chunk_z: Var<i32>,
    pub sky_light_mask: Var<i32>,
    pub block_light_mask: Var<i32>,
    pub empty_sky_light_mask: Var<i32>,
    pub empty_block_light_mask: Var<i32>,
    pub sky_lights: Vec<Vec<u8>>,
    pub block_lights: Vec<Vec<u8>>,
}

impl ProtocolWrite for UpdateLight {
    open spec fn valid(&self) -> bool {
        self.sky_lights.valid() && self.block_lights.valid()
    }

    open spec fn wire(&self) -> Seq<u8> {
        self.chunk_x.wire() + self.chunk_z.wire() + self.sky_light_mask.wire() + self.block_light_mask.wire() + self.empty_sky_light_mask.wire() + self.empty_block_light_mask.wire() + self.sky_lights.wire() + self.block_lights.wire()
    }

    fn proto_len(&self) -> (n: usize) {
        self.chunk_x.proto_len() + self.chunk_z.proto_len() + self.sky_light_mask.proto_len() + self.block_light_mask.proto_len() + self.empty_sky_light_mask.proto_len() + self.empty_block_light_mask.proto_len() + self.sky_lights.proto_len() + self.block_lights.proto_len()
    }

    fn proto_encode(&self, dst: &mut Vec<u8>) {
        self.chunk_x.proto_encode(dst);
        self.chunk_z.proto_encode(dst);
        self.sky_light_mask.proto_encode(dst);
        self.block_light_mask.proto_encode(dst);
        self.empty_sky_light_mask.proto_encode(dst);
        self.empty_block_light_mask.proto_encode(dst);
        self.sky_lights.proto_encode(dst);
        self.block_lights.proto_encode(dst);
        assert(dst@ =~= old(dst)@ + self.wire());
    }
}

/// The first play-phase packet: the world the player joins.
#[derive(Debug, Clone)]
pub struct JoinGame {
    pub entity_id: i32,
    pub game_mode: u8,
    pub dimension: i32,
    pub hashed_seed: u64,
    pub max_players: u8,
    pub level_type: String,
    pub view_distance: Var<i32>,
    pub reduced_debug_info: bool,
    pub enable_respawn_screen: bool,
}

impl ProtocolWrite for JoinGame {
    open spec fn valid(&self) -> bool {
        self.level_type.valid()
    }

    open spec fn wire(&self) -> Seq<u8> {
        self.entity_id.wire() + self.game_mode.wire() + self.dimension.wire() + self.hashed_seed.wire() + self.max_players.wire() + self.level_type.wire() + self.view_distance.wire() + self.reduced_debug_info.wire() + self.enable_respawn_screen.wire()
    }

    fn proto_len(&self) -> (n: usize) {
        self.entity_id.proto_len() + self.game_mode.proto_len() + self.dimension.proto_len() + self.hashed_seed.proto_len() + self.max_players.proto_len() + self.level_type.proto_len() + self.view_distance.proto_len() + self.reduced_debug_info.proto_len() + self.enable_respawn_screen.proto_len()
    }

    fn proto_encode(&self, dst: &mut Vec<u8>) {
        self.entity_id.proto_encode(dst);
        self.game_mode.proto_encode(dst);
        self.dimension.proto_encode(dst);
        self.hashed_seed.proto_encode(dst);
        self.max_players.proto_encode(dst);
        self.level_type.proto_encode(dst);
        self.view_distance.proto_encode(dst);
        self.reduced_debug_info.proto_encode(dst);
        self.enable_respawn_screen.proto_encode(dst);
        assert(dst@ =~= old(dst)@ + self.wire());
    }
}

/// One profile property of a listed player.
#[derive(Debug, Clone)]
pub struct Properties {
    pub name: String,
    pub value: String,
    pub is_signed: bool,
    pub signature: Option<String>,
}

impl ProtocolWrite for Properties {
    open spec fn valid(&self) -> bool {
        self.name.valid() && self.value.valid() && self.signature.valid()
    }

    open spec fn wire(&self) -> Seq<u8> {
        self.name.wire() + self.value.wire() + self.is_signed.wire() + self.signature.wire()
    }

    fn proto_len(&self) -> (n: usize) {
        self.name.proto_len() + self.value.proto_len() + self.is_signed.proto_len() + self.signature.proto_len()
    }

    fn proto_encode(&self, dst: &mut Vec<u8>) {
        self.name.proto_encode(dst);
        self.value.proto_encode(dst);
        self.is_signed.proto_encode(dst);
        self.signature.proto_encode(dst);
        assert(dst@ =~= old(dst)@ + self.wire());
    }
}

/// One entry of a player-list addition.
#[derive(Debug, Clone)]
pub struct AddPlayer {
    pub uuid: Uuid,
    pub name: String,
    pub props: Vec<Properties>,
    pub gamemode: Var<i32>,
    pub ping: Var<i32>,
    pub has_display_name: bool,
    pub display_name: Option<String>,
}

impl ProtocolWrite for AddPlayer {
    open spec fn valid(&self) -> bool {
        self.name.valid() && self.props.valid() && self.display_name.valid()
    }

    open spec fn wire(&self) -> Seq<u8> {
        self.uuid.wire() + self.name.wire() + self.props.wire() + self.gamemode.wire() + self.ping.wire() + self.has_display_name.wire() + self.display_name.wire()
    }

    fn proto_len(&self) -> (n: usize) {
        self.uuid.proto_len() + self.name.proto_len() + self.props.proto_len() + self.gamemode.proto_len() + self.ping.proto_len() + self.has_display_name.proto_len() + self.display_name.proto_len()
    }

    fn proto_encode(&self, dst: &mut Vec<u8>) {
        self.uuid.proto_encode(dst);
        self.name.proto_encode(dst);
        self.props.proto_encode(dst);
        self.gamemode.proto_encode(dst);
        self.ping.proto_encode(dst);
        self.has_display_name.proto_encode(dst);
        self.display_name.proto_encode(dst);
        assert(dst@ =~= old(dst)@ + self.wire());
    }
}

/// Teleport the player; coordinates are IEEE-754 double bit
/// patterns, angles single bit patterns.
#[derive(Debug, Clone)]
pub struct PlayerPositionAndLook {
    pub x: u64,
    pub y: u64,
    pub z: u64,
    pub yaw: u32,
    pub pitch: u32,
    pub flags: u8,
    pub teleport_id: Var<i32>,
}

impl ProtocolWrite for PlayerPositionAndLook {
    open spec fn valid(&self) -> bool {
        true
    }

    open spec fn wire(&self) -> Seq<u8> {
        self.x.wire() + self.y.wire() + self.z.wire() + self.yaw.wire() + self.pitch.wire() + self.flags.wire() + self.teleport_id.wire()
    }

    fn proto_len(&self) -> (n: usize) {
        self.x.proto_len() + self.y.proto_len() + self.z.proto_len() + self.yaw.proto_len() + self.pitch.proto_len() + self.flags.proto_len() + self.teleport_id.proto_len()
    }

    fn proto_encode(&self, dst: &mut Vec<u8>) {
        self.x.proto_encode(dst);
        self.y.proto_encode(dst);
        self.z.proto_encode(dst);
        self.yaw.proto_encode(dst);
        self.pitch.proto_encode(dst);
        self.flags.proto_encode(dst);
        self.teleport_id.proto_encode(dst);
        assert(dst@ =~= old(dst)@ + self.wire());
    }
}

/// Recipe book state.
#[derive(Debug, Clone)]
pub struct UnlockRecipes {
    pub action: Var<i32>,
    pub crafting_recipe_book_open: bool,
    pub crafting_recipe_book_filter_active: bool,
    pub smelting_recipe_book_open: bool,
    pub smelting_recipe_book_filter_active: bool,
    pub recipe_ids: Vec<Var<i32>>,
    pub additional_recipe_ids: Option<Vec<Var<i32>>>,
}

impl ProtocolWrite for UnlockRecipes {
    open spec fn valid(&self) -> bool {
        self.recipe_ids.valid() && self.additional_recipe_ids.valid()
    }

    open spec fn wire(&self) -> Seq<u8> {
        self.action.wire() + self.crafting_recipe_book_open.wire() + self.crafting_recipe_book_filter_active.wire() + self.smelting_recipe_book_open.wire() + self.smelting_recipe_book_filter_active.wire() + self.recipe_ids.wire() + self.additional_recipe_ids.wire()
    }

    fn proto_len(&self) -> (n: usize) {
        self.action.proto_len() + self.crafting_recipe_book_open.proto_len() + self.crafting_recipe_book_filter_active.proto_len() + self.smelting_recipe_book_open.proto_len() + self.smelting_recipe_book_filter_active.proto_len() + self.recipe_ids.proto_len() + self.additional_recipe_ids.proto_len()
    }

    fn proto_encode(&self, dst: &mut Vec<u8>) {
        self.action.proto_encode(dst);
        self.crafting_recipe_book_open.proto_encode(dst);
        self.crafting_recipe_book_filter_active.proto_encode(dst);
        self.smelting_recipe_book_open.proto_encode(dst);
        self.smelting_recipe_book_filter_active.proto_encode(dst);
        self.recipe_ids.proto_encode(dst);
        self.additional_recipe_ids.proto_encode(dst);
        assert(dst@ =~= old(dst)@ + self.wire());
    }
}

/// Select the player's hotbar slot.
#[derive(Debug, Clone)]
pub struct HeldItemChange {
    pub slot: u8,
}

impl ProtocolWrite for HeldItemChange {
    open spec fn valid(&self) -> bool {
        true
    }

    open spec fn wire(&self) -> Seq<u8> {
        self.slot.wire()
    }

    fn proto_len(&self) -> (n: usize) {
        self.slot.proto_len()
    }

    fn proto_encode(&self, dst: &mut Vec<u8>) {
        self.slot.proto_encode(dst);
        assert(dst@ =~= old(dst)@ + self.wire());
    }
}

/// The chunk the client should center its view on.
#[derive(Debug, Clone)]
pub struct UpdateViewPosition {
    pub chunk_x: Var<i32>,
    pub chunk_z: Var<i32>,
}

impl ProtocolWrite for UpdateViewPosition {
    open spec fn valid(&self) -> bool {
        true
    }

    open spec fn wire(&self) -> Seq<u8> {
        self.chunk_x.wire() + self.chunk_z.wire()
    }

    fn proto_len(&self) -> (n: usize) {
        self.chunk_x.proto_len() + self.chunk_z.proto_len()
    }

    fn proto_encode(&self, dst: &mut Vec<u8>) {
        self.chunk_x.proto_encode(dst);
        self.chunk_z.proto_encode(dst);
        assert(dst@ =~= old(dst)@ + self.wire());
    }
}

/// The world spawn point.
#[derive(Debug, Clone)]
pub struct SpawnPosition {
    pub location: Position,
}

impl ProtocolWrite for SpawnPosition {
    open spec fn valid(&self) -> bool {
        self.location.valid()
    }

    open spec fn wire(&self) -> Seq<u8> {
        self.location.wire()
    }

    fn proto_len(&self) -> (n: usize) {
        self.location.proto_len()
    }

    fn proto_encode(&self, dst: &mut Vec<u8>) {
        self.location.proto_encode(dst);
        assert(dst@ =~= old(dst)@ + self.wire());
    }
}

/// One declared recipe.
#[derive(Debug, Clone)]
pub struct Recipe {
    pub recipe_type: String,
    pub recipe_id: String,
}

impl ProtocolWrite for Recipe {
    open spec fn valid(&self) -> bool {
        self.recipe_type.valid() && self.recipe_id.valid()
    }

    open spec fn wire(&self) -> Seq<u8> {
        self.recipe_type.wire() + self.recipe_id.wire()
    }

    fn proto_len(&self) -> (n: usize) {
        self.recipe_type.proto_len() + self.recipe_id.proto_len()
    }

    fn proto_encode(&self, dst: &mut Vec<u8>) {
        self.recipe_type.proto_encode(dst);
        self.recipe_id.proto_encode(dst);
        assert(dst@ =~= old(dst)@ + self.wire());
    }
}

/// The recipe catalogue.
#[derive(Debug, Clone)]
pub struct DeclareRecipes {
    pub recipes: Vec<Recipe>,
}

impl ProtocolWrite for DeclareRecipes {
    open spec fn valid(&self) -> bool {
        self.recipes.valid()
    }

    open spec fn wire(&self) -> Seq<u8> {
        self.recipes.wire()
    }

    fn proto_len(&self) -> (n: usize) {
        self.recipes.proto_len()
    }

    fn proto_encode(&self, dst: &mut Vec<u8>) {
        self.recipes.proto_encode(dst);
        assert(dst@ =~= old(dst)@ + self.wire());
    }
}

/// One named id group.
#[derive(Debug, Clone)]
pub struct Tag {
    pub name: String,
    pub entries: Vec<Var<i32>>,
}

impl ProtocolWrite for Tag {
    open spec fn valid(&self) -> bool {
        self.name.valid() && self.entries.valid()
    }

    open spec fn wire(&self) -> Seq<u8> {
        self.name.wire() + self.entries.wire()
    }

    fn proto_len(&self) -> (n: usize) {
        self.name.proto_len() + self.entries.proto_len()
    }

    fn proto_encode(&self, dst: &mut Vec<u8>) {
        self.name.proto_encode(dst);
        self.entries.proto_encode(dst);
        assert(dst@ =~= old(dst)@ + self.wire());
    }
}

/// The block, item, fluid and entity id groups.
#[derive(Debug, Clone)]
pub struct Tags {
    pub block_tags: Vec<Tag>,
    pub item_tags: Vec<Tag>,
    pub fluid_tags: Vec<Tag>,
    pub entity_tags: Vec<Tag>,
}

impl ProtocolWrite for Tags {
    open spec fn valid(&self) -> bool {
        self.block_tags.valid() && self.item_tags.valid() && self.fluid_tags.valid() && self.entity_tags.valid()
    }

    open spec fn wire(&self) -> Seq<u8> {
        self.block_tags.wire() + self.item_tags.wire() + self.fluid_tags.wire() + self.entity_tags.wire()
    }

    fn proto_len(&self) -> (n: usize) {
        self.block_tags.proto_len() + self.item_tags.proto_len() + self.fluid_tags.proto_len() + self.entity_tags.proto_len()
    }

    fn proto_encode(&self, dst: &mut Vec<u8>) {
        self.block_tags.proto_encode(dst);
        self.item_tags.proto_encode(dst);
        self.fluid_tags.proto_encode(dst);
        self.entity_tags.proto_encode(dst);
        assert(dst@ =~= old(dst)@ + self.wire());
    }
}

/// One block changed.
#[derive(Debug, Clone)]
pub struct BlockChange {
    pub location: Position,
    pub block_id: Var<i32>,
}

impl ProtocolWrite for BlockChange {
    open spec fn valid(&self) -> bool {
        self.location.valid()
    }

    open spec fn wire(&self) -> Seq<u8> {
        self.location.wire() + self.block_id.wire()
    }

    fn proto_len(&self) -> (n: usize) {
        self.location.proto_len() + self.block_id.proto_len()
    }

    fn proto_encode(&self, dst: &mut Vec<u8>) {
        self.location.proto_encode(dst);
        self.block_id.proto_encode(dst);
        assert(dst@ =~= old(dst)@ + self.wire());
    }
}

/// Drop a loaded chunk.
#[derive(Debug, Clone)]
pub struct UnloadChunk {
    pub chunk_x: i32,
    pub chunk_z: i32,
}

impl ProtocolWrite for UnloadChunk {
    open spec fn valid(&self) -> bool {
        true
    }

    open spec fn wire(&self) -> Seq<u8> {
        self.chunk_x.wire() + self.chunk_z.wire()
    }

    fn proto_len(&self) -> (n: usize) {
        self.chunk_x.proto_len() + self.chunk_z.proto_len()
    }

    fn proto_encode(&self, dst: &mut Vec<u8>) {
        self.chunk_x.proto_encode(dst);
        self.chunk_z.proto_encode(dst);
        assert(dst@ =~= old(dst)@ + self.wire());
    }
}

/// A play-phase disconnect, with a JSON chat reason.
#[derive(Debug, Clone)]
pub struct PlayDisconnect {
    pub reason: String,
}

impl ProtocolWrite for PlayDisconnect {
    open spec fn valid(&self) -> bool {
        self.reason.valid()
    }

    open spec fn wire(&self) -> Seq<u8> {
        self.reason.wire()
    }

    fn proto_len(&self) -> (n: usize) {
        self.reason.proto_len()
    }

    fn proto_encode(&self, dst: &mut Vec<u8>) {
        self.reason.proto_encode(dst);
        assert(dst@ =~= old(dst)@ + self.wire());
    }
}

/// A block entity tag. The server sends none, and the placeholder
/// carries no fields: its wire form is a bare end tag.
#[derive(Debug, Clone, PartialEq, Eq, Structural)]
pub struct BlockEntity {}

impl ProtocolWrite for BlockEntity {
    open spec fn valid(&self) -> bool {
        true
    }

    open spec fn wire(&self) -> Seq<u8> {
        seq![0x00u8]
    }

    fn proto_len(&self) -> (n: usize) {
        1
    }

    fn proto_encode(&self, dst: &mut Vec<u8>) {
        dst.push(0x00u8);
        assert(dst@ =~= old(dst)@ + self.wire());
    }
}

/// A full chunk column: which sections are present, the heightmap tag,
/// the biome table (sent raw, without a count), and the serialized
/// sections.
#[derive(Debug, Clone)]
pub struct ChunkData {
    pub chunk_x: i32,
    pub chunk_z: i32,
    pub full_chunk: bool,
    pub primary_bit_mask: Var<i32>,
    pub heightmaps: Nbt<Heightmaps>,
    pub biomes: Option<Vec<i32>>,
    pub data: Vec<u8>,
    pub block_entities: Vec<Nbt<BlockEntity>>,
}

/// The biome table travels raw: each id in order, with no count.
pub open spec fn biomes_wire(b: Option<Vec<i32>>) -> Seq<u8> {
    match b {
        Some(v) => crate::arr::elems_wire(v@),
        None => Seq::empty(),
    }
}

impl ProtocolWrite for ChunkData {
    open spec fn valid(&self) -> bool {
        self.heightmaps.valid() && self.data.valid() && self.block_entities.valid()
            && (match self.biomes {
            Some(v) => v@.len() <= 4096,
            None => true,
        })
    }

    open spec fn wire(&self) -> Seq<u8> {
        self.chunk_x.wire() + self.chunk_z.wire() + self.full_chunk.wire()
            + self.primary_bit_mask.wire() + self.heightmaps.wire() + biomes_wire(self.biomes)
            + self.data.wire() + self.block_entities.wire()
    }

    fn proto_len(&self) -> (n: usize) {
        let bl: usize = match &self.biomes {
            Some(v) => {
                proof {
                    lemma_biomes_len(v@);
                }
                4 * v.len()
            },
            None => 0,
        };
        self.chunk_x.proto_len() + self.chunk_z.proto_len() + self.full_chunk.proto_len()
            + self.primary_bit_mask.proto_len() + self.heightmaps.proto_len() + bl
            + self.data.proto_len() + self.block_entities.proto_len()
    }

    fn proto_encode(&self, dst: &mut Vec<u8>) {
        self.chunk_x.proto_encode(dst);
        self.chunk_z.proto_encode(dst);
        self.full_chunk.proto_encode(dst);
        self.primary_bit_mask.proto_encode(dst);
        self.heightmaps.proto_encode(dst);
        match &self.biomes {
            Some(v) => {
                let ghost mid = dst@;
                let mut i: usize = 0;
                proof {
                    assert(v@.take(0) =~= Seq::<i32>::empty());
                    lemma_biomes_len(v@);
                }
                while i < v.len()
                    invariant
                        i <= v@.len(),
                        dst@ == mid + crate::arr::elems_wire(v@.take(i as int)),
                        mid.len() + crate::arr::elems_wire(v@).len() <= usize::MAX,
                        crate::arr::elems_wire(v@).len() == 4 * v@.len(),
                    decreases v@.len() - i,
                {
                    proof {
                        assert(v@ =~= v@.take(i as int + 1) + v@.skip(i as int + 1));
                        crate::arr::lemma_elems_wire_cat(v@.take(i as int + 1), v@.skip(i as int + 1));
                        crate::arr::lemma_elems_wire_snoc(v@.take(i as int), v@[i as int]);
                        assert(v@.take(i as int + 1) =~= v@.take(i as int).push(v@[i as int]));
                        lemma_biomes_len(v@.take(i as int));
                        lemma_biomes_len(v@.take(i as int + 1));
                    }
                    v[i].proto_encode(dst);
                    i = i + 1;
                }
                proof {
                    assert(v@.take(v@.len() as int) =~= v@);
                }
            },
            None => {},
        }
        self.data.proto_encode(dst);
        self.block_entities.proto_encode(dst);
        assert(dst@ =~= old(dst)@ + self.wire());
    }
}

/// A raw biome table is four bytes per id.
pub proof fn lemma_biomes_len(v: Seq<i32>)
    ensures
        crate::arr::elems_wire(v).len() == 4 * v.len(),
    decreases v.len(),
{
    if v.len() > 0 {
        lemma_biomes_len(v.drop_first());
    }
}

/// A player-list update: which action, and its entries.
#[derive(Debug, Clone)]
pub enum PlayerInfoAction {
    AddPlayer(Vec<AddPlayer>),
    UpdateGamemode(Vec<(Uuid, Var<i32>)>),
    UpdateLatency(Vec<(Uuid, Var<i32>)>),
    UpdateDisplayName(Vec<(Uuid, bool, Option<String>)>),
    RemovePlayer(Vec<Uuid>),
}

impl ProtocolWrite for PlayerInfoAction {
    open spec fn valid(&self) -> bool {
        match self {
            PlayerInfoAction::AddPlayer(v) => v.valid(),
            PlayerInfoAction::UpdateGamemode(v) => v.valid(),
            PlayerInfoAction::UpdateLatency(v) => v.valid(),
            PlayerInfoAction::UpdateDisplayName(v) => v.valid(),
            PlayerInfoAction::RemovePlayer(v) => v.valid(),
        }
    }

    open spec fn wire(&self) -> Seq<u8> {
        match self {
            PlayerInfoAction::AddPlayer(v) => Var(0i32).wire() + v.wire(),
            PlayerInfoAction::UpdateGamemode(v) => Var(1i32).wire() + v.wire(),
            PlayerInfoAction::UpdateLatency(v) => Var(2i32).wire() + v.wire(),
            PlayerInfoAction::UpdateDisplayName(v) => Var(3i32).wire() + v.wire(),
            PlayerInfoAction::RemovePlayer(v) => Var(4i32).wire() + v.wire(),
        }
    }

    fn proto_len(&self) -> (n: usize) {
        match self {
            PlayerInfoAction::AddPlayer(v) => {
                assert(Var(0i32).wire() =~= seq![0u8]);
                1 + v.proto_len()
            },
            PlayerInfoAction::UpdateGamemode(v) => {
                assert(Var(1i32).wire() =~= seq![1u8]);
                1 + v.proto_len()
            },
            PlayerInfoAction::UpdateLatency(v) => {
                assert(Var(2i32).wire() =~= seq![2u8]);
                1 + v.proto_len()
            },
            PlayerInfoAction::UpdateDisplayName(v) => {
                assert(Var(3i32).wire() =~= seq![3u8]);
                1 + v.proto_len()
            },
            PlayerInfoAction::RemovePlayer(v) => {
                assert(Var(4i32).wire() =~= seq![4u8]);
                1 + v.proto_len()
            },
        }
    }

    fn proto_encode(&self, dst: &mut Vec<u8>) {
        match self {
            PlayerInfoAction::AddPlayer(v) => {
                assert(Var(0i32).wire() =~= seq![0u8]);
                dst.push(0u8);
                v.proto_encode(dst);
            },
            PlayerInfoAction::UpdateGamemode(v) => {
                assert(Var(1i32).wire() =~= seq![1u8]);
                dst.push(1u8);
                v.proto_encode(dst);
            },
            PlayerInfoAction::UpdateLatency(v) => {
                assert(Var(2i32).wire() =~= seq![2u8]);
                dst.push(2u8);
                v.proto_encode(dst);
            },
            PlayerInfoAction::UpdateDisplayName(v) => {
                assert(Var(3i32).wire() =~= seq![3u8]);
                dst.push(3u8);
                v.proto_encode(dst);
            },
            PlayerInfoAction::RemovePlayer(v) => {
                assert(Var(4i32).wire() =~= seq![4u8]);
                dst.push(4u8);
                v.proto_encode(dst);
            },
        }
        assert(dst@ =~= old(dst)@ + self.wire());
    }
}

/// A player-list update.
#[derive(Debug, Clone)]
pub struct PlayerInfo {
    pub action: PlayerInfoAction,
}

impl ProtocolWrite for PlayerInfo {
    open spec fn valid(&self) -> bool {
        self.action.valid()
    }

    open spec fn wire(&self) -> Seq<u8> {
        self.action.wire()
    }

    fn proto_len(&self) -> (n: usize) {
        self.action.proto_len()
    }

    fn proto_encode(&self, dst: &mut Vec<u8>) {
        self.action.proto_encode(dst);
        assert(dst@ =~= old(dst)@ + self.wire());
    }
}

/// A world-border change; all sizes and speeds are IEEE-754 double bit
/// patterns behind fixed-width words.
#[derive(Debug, Clone)]
pub enum WorldBorderAction {
    SetSize { diameter: u64 },
    LerpSize { old_diameter: u64, new_diameter: u64, speed: Var<i64> },
    SetCenter { x: u64, z: u64 },
    Initialize {
        x: u64,
        z: u64,
        old_diameter: u64,
        new_diameter: u64,
        speed: Var<i64>,
        portal_teleport_boundary: Var<i32>,
        warning_time: Var<i32>,
        warning_blocks: Var<i32>,
    },
    SetWarningTime { warning_time: Var<i32> },
    SetWarningBlocks { warning_blocks: Var<i32> },
}

impl ProtocolWrite for WorldBorderAction {
    open spec fn valid(&self) -> bool {
        true
    }

    open spec fn wire(&self) -> Seq<u8> {
        match self {
            WorldBorderAction::SetSize { diameter } => Var(0i32).wire() + diameter.wire(),
            WorldBorderAction::LerpSize { old_diameter, new_diameter, speed } => Var(1i32).wire()
                + old_diameter.wire() + new_diameter.wire() + speed.wire(),
            WorldBorderAction::SetCenter { x, z } => Var(2i32).wire() + x.wire() + z.wire(),
            WorldBorderAction::Initialize {
                x,
                z,
                old_diameter,
                new_diameter,
                speed,
                portal_teleport_boundary,
                warning_time,
                warning_blocks,
            } => Var(3i32).wire() + x.wire() + z.wire() + old_diameter.wire() + new_diameter.wire()
                + speed.wire() + portal_teleport_boundary.wire() + warning_time.wire()
                + warning_blocks.wire(),
            WorldBorderAction::SetWarningTime { warning_time } => Var(4i32).wire()
                + warning_time.wire(),
            WorldBorderAction::SetWarningBlocks { warning_blocks } => Var(5i32).wire()
                + warning_blocks.wire(),
        }
    }

    fn proto_len(&self) -> (n: usize) {
        match self {
            WorldBorderAction::SetSize { diameter } => {
                assert(Var(0i32).wire() =~= seq![0u8]);
                1 + diameter.proto_len()
            },
            WorldBorderAction::LerpSize { old_diameter, new_diameter, speed } => {
                assert(Var(1i32).wire() =~= seq![1u8]);
                1 + old_diameter.proto_len() + new_diameter.proto_len() + speed.proto_len()
            },
            WorldBorderAction::SetCenter { x, z } => {
                assert(Var(2i32).wire() =~= seq![2u8]);
                1 + x.proto_len() + z.proto_len()
            },
            WorldBorderAction::Initialize {
                x,
                z,
                old_diameter,
                new_diameter,
                speed,
                portal_teleport_boundary,
                warning_time,
                warning_blocks,
            } => {
                assert(Var(3i32).wire() =~= seq![3u8]);
                1 + x.proto_len() + z.proto_len() + old_diameter.proto_len()
                    + new_diameter.proto_len() + speed.proto_len()
                    + portal_teleport_boundary.proto_len() + warning_time.proto_len()
                    + warning_blocks.proto_len()
            },
            WorldBorderAction::SetWarningTime { warning_time } => {
                assert(Var(4i32).wire() =~= seq![4u8]);
                1 + warning_time.proto_len()
            },
            WorldBorderAction::SetWarningBlocks { warning_blocks } => {
                assert(Var(5i32).wire() =~= seq![5u8]);
                1 + warning_blocks.proto_len()
            },
        }
    }

    fn proto_encode(&self, dst: &mut Vec<u8>) {
        match self {
            WorldBorderAction::SetSize { diameter } => {
                assert(Var(0i32).wire() =~= seq![0u8]);
                dst.push(0u8);
                diameter.proto_encode(dst);
            },
            WorldBorderAction::LerpSize { old_diameter, new_diameter, speed } => {
                assert(Var(1i32).wire() =~= seq![1u8]);
                dst.push(1u8);
                old_diameter.proto_encode(dst);
                new_diameter.proto_encode(dst);
                speed.proto_encode(dst);
            },
            WorldBorderAction::SetCenter { x, z } => {
                assert(Var(2i32).wire() =~= seq![2u8]);
                dst.push(2u8);
                x.proto_encode(dst);
                z.proto_encode(dst);
            },
            WorldBorderAction::Initialize {
                x,
                z,
                old_diameter,
                new_diameter,
                speed,
                portal_teleport_boundary,
                warning_time,
                warning_blocks,
            } => {
                assert(Var(3i32).wire() =~= seq![3u8]);
                dst.push(3u8);
                x.proto_encode(dst);
                z.proto_encode(dst);
                old_diameter.proto_encode(dst);
                new_diameter.proto_encode(dst);
                speed.proto_encode(dst);
                portal_teleport_boundary.proto_encode(dst);
                warning_time.proto_encode(dst);
                warning_blocks.proto_encode(dst);
            },
            WorldBorderAction::SetWarningTime { warning_time } => {
                assert(Var(4i32).wire() =~= seq![4u8]);
                dst.push(4u8);
                warning_time.proto_encode(dst);
            },
            WorldBorderAction::SetWarningBlocks { warning_blocks } => {
                assert(Var(5i32).wire() =~= seq![5u8]);
                dst.push(5u8);
                warning_blocks.proto_encode(dst);
            },
        }
        assert(dst@ =~= old(dst)@ + self.wire());
    }
}

/// A world-border update.
#[derive(Debug, Clone)]
pub struct WorldBorder {
    pub action: WorldBorderAction,
}

impl ProtocolWrite for WorldBorder {
    open spec fn valid(&self) -> bool {
        self.action.valid()
    }

    open spec fn wire(&self) -> Seq<u8> {
        self.action.wire()
    }

    fn proto_len(&self) -> (n: usize) {
        self.action.proto_len()
    }

    fn proto_encode(&self, dst: &mut Vec<u8>) {
        self.action.proto_encode(dst);
        assert(dst@ =~= old(dst)@ + self.wire());
    }
}

/// The clientbound status-phase packet table.
#[derive(Debug, Clone)]
pub enum StatusPacket {
    SlpResponse(SlpResponse),
    Pong(Pong),
}

impl ProtocolWrite for StatusPacket {
    open spec fn valid(&self) -> bool {
        match self {
            StatusPacket::SlpResponse(p) => p.valid(),
            StatusPacket::Pong(p) => p.valid(),
        }
    }

    open spec fn wire(&self) -> Seq<u8> {
        match self {
            StatusPacket::SlpResponse(p) => Var(0x00i32).wire() + p.wire(),
            StatusPacket::Pong(p) => Var(0x01i32).wire() + p.wire(),
        }
    }

    fn proto_len(&self) -> (n: usize) {
        match self {
            StatusPacket::SlpResponse(p) => {
                assert(Var(0x00i32).wire() =~= seq![0x00u8]);
                1 + p.proto_len()
            },
            StatusPacket::Pong(p) => {
                assert(Var(0x01i32).wire() =~= seq![0x01u8]);
                1 + p.proto_len()
            },
        }
    }

    fn proto_encode(&self, dst: &mut Vec<u8>) {
        match self {
            StatusPacket::SlpResponse(p) => {
                assert(Var(0x00i32).wire() =~= seq![0x00u8]);
                dst.push(0x00u8);
                p.proto_encode(dst);
            },
            StatusPacket::Pong(p) => {
                assert(Var(0x01i32).wire() =~= seq![0x01u8]);
                dst.push(0x01u8);
                p.proto_encode(dst);
            },
        }
        assert(dst@ =~= old(dst)@ + self.wire());
    }
}

impl StatusPacket {
    /// The id-tagged packet body, ready for framing.
    pub fn packet_body(&self) -> (r: Vec<u8>)
        requires
            self.valid(),
            self.wire().len() <= usize::MAX,
        ensures
            r@ == self.wire(),
    {
        let mut out: Vec<u8> = Vec::new();
        self.proto_encode(&mut out);
        out
    }
}

/// The clientbound login-phase packet table.
#[derive(Debug, Clone)]
pub enum LoginPacket {
    Disconnect(Disconnect),
    EncryptionRequest(EncryptionRequest),
    LoginSuccess(LoginSuccess),
    SetCompression(SetCompression),
}

impl ProtocolWrite for LoginPacket {
    open spec fn valid(&self) -> bool {
        match self {
            LoginPacket::Disconnect(p) => p.valid(),
            LoginPacket::EncryptionRequest(p) => p.valid(),
            LoginPacket::LoginSuccess(p) => p.valid(),
            LoginPacket::SetCompression(p) => p.valid(),
        }
    }

    open spec fn wire(&self) -> Seq<u8> {
        match self {
            LoginPacket::Disconnect(p) => Var(0x00i32).wire() + p.wire(),
            LoginPacket::EncryptionRequest(p) => Var(0x01i32).wire() + p.wire(),
            LoginPacket::LoginSuccess(p) => Var(0x02i32).wire() + p.wire(),
            LoginPacket::SetCompression(p) => Var(0x03i32).wire() + p.wire(),
        }
    }

    fn proto_len(&self) -> (n: usize) {
        match self {
            LoginPacket::Disconnect(p) => {
                assert(Var(0x00i32).wire() =~= seq![0x00u8]);
                1 + p.proto_len()
            },
            LoginPacket::EncryptionRequest(p) => {
                assert(Var(0x01i32).wire() =~= seq![0x01u8]);
                1 + p.proto_len()
            },
            LoginPacket::LoginSuccess(p) => {
                assert(Var(0x02i32).wire() =~= seq![0x02u8]);
                1 + p.proto_len()
            },
            LoginPacket::SetCompression(p) => {
                assert(Var(0x03i32).wire() =~= seq![0x03u8]);
                1 + p.proto_len()
            },
        }
    }

    fn proto_encode(&self, dst: &mut Vec<u8>) {
        match self {
            LoginPacket::Disconnect(p) => {
                assert(Var(0x00i32).wire() =~= seq![0x00u8]);
                dst.push(0x00u8);
                p.proto_encode(dst);
            },
            LoginPacket::EncryptionRequest(p) => {
                assert(Var(0x01i32).wire() =~= seq![0x01u8]);
                dst.push(0x01u8);
                p.proto_encode(dst);
            },
            LoginPacket::LoginSuccess(p) => {
                assert(Var(0x02i32).wire() =~= seq![0x02u8]);
                dst.push(0x02u8);
                p.proto_encode(dst);
            },
            LoginPacket::SetCompression(p) => {
                assert(Var(0x03i32).wire() =~= seq![0x03u8]);
                dst.push(0x03u8);
                p.proto_encode(dst);
            },
        }
        assert(dst@ =~= old(dst)@ + self.wire());
    }
}

impl LoginPacket {
    /// The id-tagged packet body, ready for framing.
    pub fn packet_body(&self) -> (r: Vec<u8>)
        requires
            self.valid(),
            self.wire().len() <= usize::MAX,
        ensures
            r@ == self.wire(),
    {
        let mut out: Vec<u8> = Vec::new();
        self.proto_encode(&mut out);
        out
    }
}

/// The clientbound play-phase packet table.
#[derive(Debug, Clone)]
pub enum PlayPacket {
    BlockChange(BlockChange),
    DeclareCommands(DeclareCommands),
    Disconnect(PlayDisconnect),
    EntityStatus(EntityStatus),
    UnloadChunk(UnloadChunk),
    KeepAlive(KeepAlive),
    ChunkData(ChunkData),
    UpdateLight(UpdateLight),
    JoinGame(JoinGame),
    PlayerInfo(PlayerInfo),
    PlayerPositionAndLook(PlayerPositionAndLook),
    UnlockRecipes(UnlockRecipes),
    WorldBorder(WorldBorder),
    HeldItemChange(HeldItemChange),
    UpdateViewPosition(UpdateViewPosition),
    SpawnPosition(SpawnPosition),
    DeclareRecipes(DeclareRecipes),
    Tags(Tags),
}

impl ProtocolWrite for PlayPacket {
    open spec fn valid(&self) -> bool {
        match self {
            PlayPacket::BlockChange(p) => p.valid(),
            PlayPacket::DeclareCommands(p) => p.valid(),
            PlayPacket::Disconnect(p) => p.valid(),
            PlayPacket::EntityStatus(p) => p.valid(),
            PlayPacket::UnloadChunk(p) => p.valid(),
            PlayPacket::KeepAlive(p) => p.valid(),
            PlayPacket::ChunkData(p) => p.valid(),
            PlayPacket::UpdateLight(p) => p.valid(),
            PlayPacket::JoinGame(p) => p.valid(),
            PlayPacket::PlayerInfo(p) => p.valid(),
            PlayPacket::PlayerPositionAndLook(p) => p.valid(),
            PlayPacket::UnlockRecipes(p) => p.valid(),
            PlayPacket::WorldBorder(p) => p.valid(),
            PlayPacket::HeldItemChange(p) => p.valid(),
            PlayPacket::UpdateViewPosition(p) => p.valid(),
            PlayPacket::SpawnPosition(p) => p.valid(),
            PlayPacket::DeclareRecipes(p) => p.valid(),
            PlayPacket::Tags(p) => p.valid(),
        }
    }

    open spec fn wire(&self) -> Seq<u8> {
        match self {
            PlayPacket::BlockChange(p) => Var(0x0ci32).wire() + p.wire(),
            PlayPacket::DeclareCommands(p) => Var(0x12i32).wire() + p.wire(),
            PlayPacket::Disconnect(p) => Var(0x1bi32).wire() + p.wire(),
            PlayPacket::EntityStatus(p) => Var(0x1ci32).wire() + p.wire(),
            PlayPacket::UnloadChunk(p) => Var(0x1di32).wire() + p.wire(),
            PlayPacket::KeepAlive(p) => Var(0x21i32).wire() + p.wire(),
            PlayPacket::ChunkData(p) => Var(0x22i32).wire() + p.wire(),
            PlayPacket::UpdateLight(p) => Var(0x25i32).wire() + p.wire(),
            PlayPacket::JoinGame(p) => Var(0x26i32).wire() + p.wire(),
            PlayPacket::PlayerInfo(p) => Var(0x34i32).wire() + p.wire(),
            PlayPacket::PlayerPositionAndLook(p) => Var(0x36i32).wire() + p.wire(),
            PlayPacket::UnlockRecipes(p) => Var(0x37i32).wire() + p.wire(),
            PlayPacket::WorldBorder(p) => Var(0x3ei32).wire() + p.wire(),
            PlayPacket::HeldItemChange(p) => Var(0x40i32).wire() + p.wire(),
            PlayPacket::UpdateViewPosition(p) => Var(0x41i32).wire() + p.wire(),
            PlayPacket::SpawnPosition(p) => Var(0x4ei32).wire() + p.wire(),
            PlayPacket::DeclareRecipes(p) => Var(0x5bi32).wire() + p.wire(),
            PlayPacket::Tags(p) => Var(0x5ci32).wire() + p.wire(),
        }
    }

    fn proto_len(&self) -> (n: usize) {
        match self {
            PlayPacket::BlockChange(p) => {
                assert(Var(0x0ci32).wire() =~= seq![0x0cu8]);
                1 + p.proto_len()
            },
            PlayPacket::DeclareCommands(p) => {
                assert(Var(0x12i32).wire() =~= seq![0x12u8]);
                1 + p.proto_len()
            },
            PlayPacket::Disconnect(p) => {
                assert(Var(0x1bi32).wire() =~= seq![0x1bu8]);
                1 + p.proto_len()
            },
            PlayPacket::EntityStatus(p) => {
                assert(Var(0x1ci32).wire() =~= seq![0x1cu8]);
                1 + p.proto_len()
            },
            PlayPacket::UnloadChunk(p) => {
                assert(Var(0x1di32).wire() =~= seq![0x1du8]);
                1 + p.proto_len()
            },
            PlayPacket::KeepAlive(p) => {
                assert(Var(0x21i32).wire() =~= seq![0x21u8]);
                1 + p.proto_len()
            },
            PlayPacket::ChunkData(p) => {
                assert(Var(0x22i32).wire() =~= seq![0x22u8]);
                1 + p.proto_len()
            },
            PlayPacket::UpdateLight(p) => {
                assert(Var(0x25i32).wire() =~= seq![0x25u8]);
                1 + p.proto_len()
            },
            PlayPacket::JoinGame(p) => {
                assert(Var(0x26i32).wire() =~= seq![0x26u8]);
                1 + p.proto_len()
            },
            PlayPacket::PlayerInfo(p) => {
                assert(Var(0x34i32).wire() =~= seq![0x34u8]);
                1 + p.proto_len()
            },
            PlayPacket::PlayerPositionAndLook(p) => {
                assert(Var(0x36i32).wire() =~= seq![0x36u8]);
                1 + p.proto_len()
            },
            PlayPacket::UnlockRecipes(p) => {
                assert(Var(0x37i32).wire() =~= seq![0x37u8]);
                1 + p.proto_len()
            },
            PlayPacket::WorldBorder(p) => {
                assert(Var(0x3ei32).wire() =~= seq![0x3eu8]);
                1 + p.proto_len()
            },
            PlayPacket::HeldItemChange(p) => {
                assert(Var(0x40i32).wire() =~= seq![0x40u8]);
                1 + p.proto_len()
            },
            PlayPacket::UpdateViewPosition(p) => {
                assert(Var(0x41i32).wire() =~= seq![0x41u8]);
                1 + p.proto_len()
            },
            PlayPacket::SpawnPosition(p) => {
                assert(Var(0x4ei32).wire() =~= seq![0x4eu8]);
                1 + p.proto_len()
            },
            PlayPacket::DeclareRecipes(p) => {
                assert(Var(0x5bi32).wire() =~= seq![0x5bu8]);
                1 + p.proto_len()
            },
            PlayPacket::Tags(p) => {
                assert(Var(0x5ci32).wire() =~= seq![0x5cu8]);
                1 + p.proto_len()
            },
        }
    }

    fn proto_encode(&self, dst: &mut Vec<u8>) {
        match self {
            PlayPacket::BlockChange(p) => {
                assert(Var(0x0ci32).wire() =~= seq![0x0cu8]);
                dst.push(0x0cu8);
                p.proto_encode(dst);
            },
            PlayPacket::DeclareCommands(p) => {
                assert(Var(0x12i32).wire() =~= seq![0x12u8]);
                dst.push(0x12u8);
                p.proto_encode(dst);
            },
            PlayPacket::Disconnect(p) => {
                assert(Var(0x1bi32).wire() =~= seq![0x1bu8]);
                dst.push(0x1bu8);
                p.proto_encode(dst);
            },
            PlayPacket::EntityStatus(p) => {
                assert(Var(0x1ci32).wire() =~= seq![0x1cu8]);
                dst.push(0x1cu8);
                p.proto_encode(dst);
            },
            PlayPacket::UnloadChunk(p) => {
                assert(Var(0x1di32).wire() =~= seq![0x1du8]);
                dst.push(0x1du8);
                p.proto_encode(dst);
            },
            PlayPacket::KeepAlive(p) => {
                assert(Var(0x21i32).wire() =~= seq![0x21u8]);
                dst.push(0x21u8);
                p.proto_encode(dst);
            },
            PlayPacket::ChunkData(p) => {
                assert(Var(0x22i32).wire() =~= seq![0x22u8]);
                dst.push(0x22u8);
                p.proto_encode(dst);
            },
            PlayPacket::UpdateLight(p) => {
                assert(Var(0x25i32).wire() =~= seq![0x25u8]);
                dst.push(0x25u8);
                p.proto_encode(dst);
            },
            PlayPacket::JoinGame(p) => {
                assert(Var(0x26i32).wire() =~= seq![0x26u8]);
                dst.push(0x26u8);
                p.proto_encode(dst);
            },
            PlayPacket::PlayerInfo(p) => {
                assert(Var(0x34i32).wire() =~= seq![0x34u8]);
                dst.push(0x34u8);
                p.proto_encode(dst);
            },
            PlayPacket::PlayerPositionAndLook(p) => {
                assert(Var(0x36i32).wire() =~= seq![0x36u8]);
                dst.push(0x36u8);
                p.proto_encode(dst);
            },
            PlayPacket::UnlockRecipes(p) => {
                assert(Var(0x37i32).wire() =~= seq![0x37u8]);
                dst.push(0x37u8);
                p.proto_encode(dst);
            },
            PlayPacket::WorldBorder(p) => {
                assert(Var(0x3ei32).wire() =~= seq![0x3eu8]);
                dst.push(0x3eu8);
                p.proto_encode(dst);
            },
            PlayPacket::HeldItemChange(p) => {
                assert(Var(0x40i32).wire() =~= seq![0x40u8]);
                dst.push(0x40u8);
                p.proto_encode(dst);
            },
            PlayPacket::UpdateViewPosition(p) => {
                assert(Var(0x41i32).wire() =~= seq![0x41u8]);
                dst.push(0x41u8);
                p.proto_encode(dst);
            },
            PlayPacket::SpawnPosition(p) => {
                assert(Var(0x4ei32).wire() =~= seq![0x4eu8]);
                dst.push(0x4eu8);
                p.proto_encode(dst);
            },
            PlayPacket::DeclareRecipes(p) => {
                assert(Var(0x5bi32).wire() =~= seq![0x5bu8]);
                dst.push(0x5bu8);
                p.proto_encode(dst);
            },
            PlayPacket::Tags(p) => {
                assert(Var(0x5ci32).wire() =~= seq![0x5cu8]);
                dst.push(0x5cu8);
                p.proto_encode(dst);
            },
        }
        assert(dst@ =~= old(dst)@ + self.wire());
    }
}

impl PlayPacket {
    /// The id-tagged packet body, ready for framing.
    pub fn packet_body(&self) -> (r: Vec<u8>)
        requires
            self.valid(),
            self.wire().len() <= usize::MAX,
        ensures
            r@ == self.wire(),
    {
        let mut out: Vec<u8> = Vec::new();
        self.proto_encode(&mut out);
        out
    }
}

} // verus!
