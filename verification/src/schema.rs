//! The document model: one record for each element of a fleet or missile
//! document, with a field for each attribute, child element and text content.
//!
//! A field that a document may leave out is an `Option`, so that an element
//! that is absent differs from one that is present and empty; a child that
//! may repeat is a `Vec`, in document order. Numbers are kept as the text
//! that the document holds. The doc comment of each field gives its name in
//! the document.

use vstd::prelude::*;

verus! {

/// The root of a fleet document.
#[derive(Debug, Clone, PartialEq, Eq)]
pub struct Fleet {
    /// Attribute `xmlns:xsd`.
    pub xmlns_xsd: String,
    /// Attribute `xmlns:xsi`.
    pub xmlns_xsi: String,
    /// Text content.
    pub text: Option<String>,
    /// Element `ModDependencies`.
    pub mod_dependencies: Option<FleetModDependencies>,
    /// Element `Description`.
    pub description: Option<String>,
    /// Element `CraftTypes`.
    pub craft_types: Option<CraftTypes>,
    /// Element `MissileTypes`.
    pub missile_types: Option<MissileTypes>,
    /// Element `Name`.
    pub name: String,
    /// Element `Version`.
    pub version: String,
    /// Element `TotalPoints`.
    pub total_points: String,
    /// Element `FactionKey`.
    pub faction_key: String,
    /// Element `SortOverrideOrder`.
    pub sort_override_order: SortOverrideOrder,
    /// Element `Ships`.
    pub ships: Option<Ships>,
}

/// The `ModDependencies` element of `Fleet`.
#[derive(Debug, Clone, PartialEq, Eq)]
pub struct FleetModDependencies {
    /// Text content.
    pub text: Option<String>,
    /// Element `unsignedLong`.
    pub unsigned_long: Option<String>,
}

/// The `CraftTypes` container: the craft templates of a fleet, in order.
#[derive(Debug, Clone, PartialEq, Eq)]
pub struct CraftTypes {
    /// Text content.
    pub text: Option<String>,
    /// Element `CraftTemplate`.
    pub craft_template: Vec<CraftTemplate>,
}

/// A craft design carried by a fleet.
#[derive(Debug, Clone, PartialEq, Eq)]
pub struct CraftTemplate {
    /// Text content.
    pub text: Option<String>,
    /// Element `AssociatedTemplateName`.
    pub associated_template_name: Option<String>,
    /// Element `Nickname`.
    pub nickname: String,
    /// Element `Cost`.
    pub cost: String,
    /// Element `FrameKey`.
    pub frame_key: String,
    /// Element `TemplateKey`.
    pub template_key: String,
    /// Element `InstalledComponents`.
    pub installed_components: InstalledComponents,
    /// Element `Loadouts`.
    pub loadouts: Loadouts,
    /// Element `TemplateMissileTypes`.
    pub template_missile_types: CraftTemplateTemplateMissileTypes,
    /// Element `ModDependencies`.
    pub mod_dependencies: CraftTemplateModDependencies,
    /// Element `LongDescription`.
    pub long_description: Option<String>,
    /// Element `DesignationSuffix`.
    pub designation_suffix: Option<String>,
}

/// The `InstalledComponents` element of `CraftTemplate`.
#[derive(Debug, Clone, PartialEq, Eq)]
pub struct InstalledComponents {
    /// Text content.
    pub text: Option<String>,
    /// Element `SerializedCraftSocket`.
    pub serialized_craft_socket: Vec<SerializedCraftSocket>,
}

/// The `SerializedCraftSocket` element of `InstalledComponents`.
#[derive(Debug, Clone, PartialEq, Eq)]
pub struct SerializedCraftSocket {
    /// Text content.
    pub text: Option<String>,
    /// Element `SocketKey`.
    pub socket_key: String,
    /// Element `ComponentKey`.
    pub component_key: String,
}

/// The `Loadouts` element of `CraftTemplate`.
#[derive(Debug, Clone, PartialEq, Eq)]
pub struct Loadouts {
    /// Text content.
    pub text: Option<String>,
    /// Element `CraftLoadout`.
    pub craft_loadout: Vec<CraftLoadout>,
}

/// The `CraftLoadout` element of `Loadouts`.
#[derive(Debug, Clone, PartialEq, Eq)]
pub struct CraftLoadout {
    /// Text content.
    pub text: Option<String>,
    /// Element `LoadoutName`.
    pub loadout_name: String,
    /// Element `Elements`.
    pub elements: Elements,
}

/// The `Elements` element of `CraftLoadout`.
#[derive(Debug, Clone, PartialEq, Eq)]
pub struct Elements {
    /// Text content.
    pub text: Option<String>,
    /// Element `GeneralLoadoutElement`.
    pub general_loadout_element: Vec<GeneralLoadoutElement>,
}

/// The `GeneralLoadoutElement` element of `Elements`.
#[derive(Debug, Clone, PartialEq, Eq)]
pub struct GeneralLoadoutElement {
    /// Attribute `type`.
    pub xsi_type: String,
    /// Text content.
    pub text: Option<String>,
    /// Element `MissileKeys`.
    pub missile_keys: Option<GeneralLoadoutElementMissileKeys>,
    /// Element `AmmoKey`.
    pub ammo_key: Option<String>,
    /// Element `Loadout`.
    pub loadout: Option<Loadout>,
    /// Element `ComponentKey`.
    pub component_key: Option<String>,
    /// Element `SocketKey`.
    pub socket_key: Option<String>,
}

/// The `MissileKeys` element of `GeneralLoadoutElement`.
#[derive(Debug, Clone, PartialEq, Eq)]
pub struct GeneralLoadoutElementMissileKeys {
    /// Text content.
    pub text: Option<String>,
    /// Element `string`.
    pub string: Vec<GeneralLoadoutElementMissileKeysString>,
}

/// The `string` element of `GeneralLoadoutElementMissileKeys`.
#[derive(Debug, Clone, PartialEq, Eq)]
pub struct GeneralLoadoutElementMissileKeysString {
    /// Attribute `nil`.
    pub xsi_nil: Option<String>,
    /// Text content.
    pub text: Option<String>,
}

/// The `Loadout` element of `GeneralLoadoutElement`.
#[derive(Debug, Clone, PartialEq, Eq)]
pub struct Loadout {
    /// Attribute `type`.
    pub xsi_type: String,
    /// Text content.
    pub text: Option<String>,
    /// Element `AmmoKey`.
    pub ammo_key: Option<String>,
    /// Element `MissileKeys`.
    pub missile_keys: Option<LoadoutMissileKeys>,
    /// Element `SocketKey`.
    pub socket_key: Option<String>,
}

/// The `MissileKeys` element of `Loadout`.
#[derive(Debug, Clone, PartialEq, Eq)]
pub struct LoadoutMissileKeys {
    /// Text content.
    pub text: Option<String>,
    /// Element `string`.
    pub string: Vec<LoadoutMissileKeysString>,
}

/// The `string` element of `LoadoutMissileKeys`.
#[derive(Debug, Clone, PartialEq, Eq)]
pub struct LoadoutMissileKeysString {
    /// Attribute `nil`.
    pub xsi_nil: Option<String>,
    /// Text content.
    pub text: Option<String>,
}

/// The `TemplateMissileTypes` element of `CraftTemplate`.
#[derive(Debug, Clone, PartialEq, Eq)]
pub struct CraftTemplateTemplateMissileTypes {}

/// The `ModDependencies` element of `CraftTemplate`.
#[derive(Debug, Clone, PartialEq, Eq)]
pub struct CraftTemplateModDependencies {}

/// The `MissileTypes` container: the missile templates of a fleet, in order.
#[derive(Debug, Clone, PartialEq, Eq)]
pub struct MissileTypes {
    /// Text content.
    pub text: Option<String>,
    /// Element `MissileTemplate`.
    pub missile_template: Vec<MissileTemplate>,
}

/// A missile design, in a fleet or alone as the root of a missile document.
#[derive(Debug, Clone, PartialEq, Eq)]
pub struct MissileTemplate {
    /// Text content.
    pub text: Option<String>,
    /// Element `AssociatedTemplateName`.
    pub associated_template_name: Option<String>,
    /// Element `Designation`.
    pub designation: String,
    /// Element `Nickname`.
    pub nickname: String,
    /// Element `Description`.
    pub description: String,
    /// Element `LongDescription`.
    pub long_description: String,
    /// Element `Cost`.
    pub cost: String,
    /// Element `BodyKey`.
    pub body_key: String,
    /// Element `TemplateKey`.
    pub template_key: String,
    /// Element `BaseColor`.
    pub base_color: BaseColor,
    /// Element `StripeColor`.
    pub stripe_color: StripeColor,
    /// Element `Sockets`.
    pub sockets: Sockets,
}

/// The `BaseColor` element of `MissileTemplate`.
#[derive(Debug, Clone, PartialEq, Eq)]
pub struct BaseColor {
    /// Text content.
    pub text: Option<String>,
    /// Element `r`.
    pub r: String,
    /// Element `g`.
    pub g: String,
    /// Element `b`.
    pub b: String,
    /// Element `a`.
    pub a: String,
}

/// The `StripeColor` element of `MissileTemplate`.
#[derive(Debug, Clone, PartialEq, Eq)]
pub struct StripeColor {
    /// Text content.
    pub text: Option<String>,
    /// Element `r`.
    pub r: String,
    /// Element `g`.
    pub g: String,
    /// Element `b`.
    pub b: String,
    /// Element `a`.
    pub a: String,
}

/// The `Sockets` element of `MissileTemplate`.
#[derive(Debug, Clone, PartialEq, Eq)]
pub struct Sockets {
    /// Text content.
    pub text: Option<String>,
    /// Element `MissileSocket`.
    pub missile_socket: Vec<MissileSocket>,
}

/// The `MissileSocket` element of `Sockets`.
#[derive(Debug, Clone, PartialEq, Eq)]
pub struct MissileSocket {
    /// Text content.
    pub text: Option<String>,
    /// Element `Size`.
    pub size: String,
    /// Element `InstalledComponent`.
    pub installed_component: Option<InstalledComponent>,
}

/// The `InstalledComponent` element of `MissileSocket`.
#[derive(Debug, Clone, PartialEq, Eq)]
pub struct InstalledComponent {
    /// Attribute `type`.
    pub xsi_type: Option<String>,
    /// Text content.
    pub text: Option<String>,
    /// Element `ValidatorMem`.
    pub validator_mem: Option<String>,
    /// Element `Interval`.
    pub interval: Option<String>,
    /// Element `SubmunitionKey`.
    pub submunition_key: Option<String>,
    /// Element `Range`.
    pub range: Option<String>,
    /// Element `SpreadOption`.
    pub spread_option: Option<String>,
    /// Element `TargetType`.
    pub target_type: Option<String>,
    /// Element `DetectPDTargets`.
    pub detect_pdtargets: Option<String>,
    /// Element `RejectUnvalidated`.
    pub reject_unvalidated: Option<String>,
    /// Element `Mode`.
    pub mode: Option<String>,
    /// Element `ApproachAngleControl`.
    pub approach_angle_control: Option<String>,
    /// Element `DefensiveDoctrine`.
    pub defensive_doctrine: Option<DefensiveDoctrine>,
    /// Element `Maneuvers`.
    pub maneuvers: Option<String>,
    /// Element `SelfDestructOnLost`.
    pub self_destruct_on_lost: Option<String>,
    /// Element `HotLaunch`.
    pub hot_launch: Option<String>,
    /// Element `Role`.
    pub role: Option<String>,
    /// Element `ComponentKey`.
    pub component_key: String,
    /// Element `BalanceValues`.
    pub balance_values: Option<BalanceValues>,
}

/// The `DefensiveDoctrine` element of `InstalledComponent`.
#[derive(Debug, Clone, PartialEq, Eq)]
pub struct DefensiveDoctrine {
    /// Text content.
    pub text: Option<String>,
    /// Element `TargetSizeMask`.
    pub target_size_mask: String,
    /// Element `TargetType`.
    pub target_type: String,
    /// Element `TargetSizeOrdering`.
    pub target_size_ordering: String,
    /// Element `SalvoSize`.
    pub salvo_size: String,
    /// Element `FarthestFirst`.
    pub farthest_first: String,
}

/// The `BalanceValues` element of `InstalledComponent`.
#[derive(Debug, Clone, PartialEq, Eq)]
pub struct BalanceValues {
    /// Text content.
    pub text: Option<String>,
    /// Element `A`.
    pub a: String,
    /// Element `B`.
    pub b: String,
    /// Element `C`.
    pub c: String,
}

/// The `SortOverrideOrder` element of `Fleet`.
#[derive(Debug, Clone, PartialEq, Eq)]
pub struct SortOverrideOrder {
    /// Attribute `nil`.
    pub xsi_nil: Option<String>,
    /// Attribute `nil`.
    pub nil: Option<String>,
    /// Text content.
    pub text: Option<String>,
}

/// The `Ships` container: the ships of a fleet, in order.
#[derive(Debug, Clone, PartialEq, Eq)]
pub struct Ships {
    /// Text content.
    pub text: Option<String>,
    /// Element `Ship`.
    pub ship: Vec<Ship>,
}

/// One ship of a fleet.
#[derive(Debug, Clone, PartialEq, Eq)]
pub struct Ship {
    /// Text content.
    pub text: Option<String>,
    /// Element `HullConfig`.
    pub hull_config: Option<HullConfig>,
    /// Element `TemplateSpacecraftTypes`.
    pub template_spacecraft_types: Option<TemplateSpacecraftTypes>,
    /// Element `Callsign`.
    pub callsign: Option<String>,
    /// Element `SaveID`.
    pub save_id: SaveId,
    /// Element `Key`.
    pub key: String,
    /// Element `Name`.
    pub name: String,
    /// Element `Cost`.
    pub cost: String,
    /// Element `Number`.
    pub number: String,
    /// Element `SymbolOption`.
    pub symbol_option: String,
    /// Element `HullType`.
    pub hull_type: String,
    /// Element `SocketMap`.
    pub socket_map: SocketMap,
    /// Element `WeaponGroups`.
    pub weapon_groups: WeaponGroups,
    /// Element `TemplateMissileTypes`.
    pub template_missile_types: ShipTemplateMissileTypes,
    /// Element `InitialFormation`.
    pub initial_formation: Option<InitialFormation>,
}

/// The hull of a ship whose hull is composed of segments.
#[derive(Debug, Clone, PartialEq, Eq)]
pub struct HullConfig {
    /// Attribute `type`.
    pub xsi_type: Option<String>,
    /// Text content.
    pub text: Option<String>,
    /// Element `TextureVariation`.
    pub texture_variation: Option<TextureVariation>,
    /// Element `HullTint`.
    pub hull_tint: Option<HullTint>,
    /// Element `SecondaryStructure`.
    pub secondary_structure: Option<SecondaryStructure>,
    /// Element `PrimaryStructure`.
    pub primary_structure: Option<PrimaryStructure>,
}

/// The `TextureVariation` element of `HullConfig`.
#[derive(Debug, Clone, PartialEq, Eq)]
pub struct TextureVariation {
    /// Text content.
    pub text: Option<String>,
    /// Element `x`.
    pub x: String,
    /// Element `y`.
    pub y: String,
    /// Element `z`.
    pub z: String,
}

/// The `HullTint` element of `HullConfig`.
#[derive(Debug, Clone, PartialEq, Eq)]
pub struct HullTint {
    /// Text content.
    pub text: Option<String>,
    /// Element `r`.
    pub r: String,
    /// Element `g`.
    pub g: String,
    /// Element `b`.
    pub b: String,
    /// Element `a`.
    pub a: String,
}

/// The superstructure of a hull.
#[derive(Debug, Clone, PartialEq, Eq)]
pub struct SecondaryStructure {
    /// Text content.
    pub text: Option<String>,
    /// Element `SecondaryStructureConfig`.
    pub secondary_structure_config: SecondaryStructureConfig,
}

/// Which superstructure a hull has, on which segment and where on it.
#[derive(Debug, Clone, PartialEq, Eq)]
pub struct SecondaryStructureConfig {
    /// Text content.
    pub text: Option<String>,
    /// Element `Key`.
    pub key: String,
    /// Element `Segment`.
    pub segment: String,
    /// Element `SnapPoint`.
    pub snap_point: String,
}

/// The segments of a hull, bow first, then core, then stern.
#[derive(Debug, Clone, PartialEq, Eq)]
pub struct PrimaryStructure {
    /// Text content.
    pub text: Option<String>,
    /// Element `SegmentConfiguration`.
    pub segment_configuration: Vec<SegmentConfiguration>,
}

/// One segment of a hull: its kind and its dressings.
#[derive(Debug, Clone, PartialEq, Eq)]
pub struct SegmentConfiguration {
    /// Text content.
    pub text: Option<String>,
    /// Element `Key`.
    pub key: String,
    /// Element `Dressing`.
    pub dressing: Dressing,
}

/// The dressing choices of a segment, one small integer per slot.
#[derive(Debug, Clone, PartialEq, Eq)]
pub struct Dressing {
    /// Text content.
    pub text: Option<String>,
    /// Element `int`.
    pub int: Vec<String>,
}

/// The `TemplateSpacecraftTypes` element of `Ship`.
#[derive(Debug, Clone, PartialEq, Eq)]
pub struct TemplateSpacecraftTypes {}

/// The `SaveID` element of `Ship`.
#[derive(Debug, Clone, PartialEq, Eq)]
pub struct SaveId {
    /// Attribute `nil`.
    pub xsi_nil: Option<String>,
    /// Attribute `nil`.
    pub nil: Option<String>,
}

/// The sockets of a ship, in order.
#[derive(Debug, Clone, PartialEq, Eq)]
pub struct SocketMap {
    /// Text content.
    pub text: Option<String>,
    /// Element `HullSocket`.
    pub hull_socket: Vec<HullSocket>,
}

/// One socket of a ship and the component mounted in it.
#[derive(Debug, Clone, PartialEq, Eq)]
pub struct HullSocket {
    /// Text content.
    pub text: Option<String>,
    /// Element `ComponentData`.
    pub component_data: Option<ComponentData>,
    /// Element `Key`.
    pub key: String,
    /// Element `ComponentName`.
    pub component_name: String,
}

/// The data of a mounted component; `xsi_type` tells its kind.
#[derive(Debug, Clone, PartialEq, Eq)]
pub struct ComponentData {
    /// Attribute `type`.
    pub xsi_type: Option<String>,
    /// Attribute `type`.
    pub component_data_type: Option<String>,
    /// Text content.
    pub text: Option<String>,
    /// Element `IdentityOption`.
    pub identity_option: Option<String>,
    /// Element `ConfiguredSize`.
    pub configured_size: Option<ConfiguredSize>,
    /// Element `StoredCraft`.
    pub stored_craft: Option<StoredCraft>,
    /// Element `FireOutsideLimits`.
    pub fire_outside_limits: Option<String>,
    /// Element `MissileLoad`.
    pub missile_load: Option<MissileLoad>,
    /// Element `Load`.
    pub load: Option<Load>,
}

/// The `ConfiguredSize` element of `ComponentData`.
#[derive(Debug, Clone, PartialEq, Eq)]
pub struct ConfiguredSize {
    /// Text content.
    pub text: Option<String>,
    /// Element `y`.
    pub y: Option<String>,
    /// Element `x`.
    pub x: Option<String>,
}

/// The `StoredCraft` element of `ComponentData`.
#[derive(Debug, Clone, PartialEq, Eq)]
pub struct StoredCraft {
    /// Text content.
    pub text: Option<String>,
    /// Element `SavedStoredCraft`.
    pub saved_stored_craft: Vec<SavedStoredCraft>,
}

/// The `SavedStoredCraft` element of `StoredCraft`.
#[derive(Debug, Clone, PartialEq, Eq)]
pub struct SavedStoredCraft {
    /// Text content.
    pub text: Option<String>,
    /// Element `CraftTemplateKey`.
    pub craft_template_key: String,
}

/// The `MissileLoad` element of `ComponentData`.
#[derive(Debug, Clone, PartialEq, Eq)]
pub struct MissileLoad {
    /// Text content.
    pub text: Option<String>,
    /// Element `MagSaveData`.
    pub mag_save_data: Vec<MissileLoadMagSaveData>,
}

/// The `MagSaveData` element of `MissileLoad`.
#[derive(Debug, Clone, PartialEq, Eq)]
pub struct MissileLoadMagSaveData {
    /// Text content.
    pub text: Option<String>,
    /// Element `MagazineKey`.
    pub magazine_key: String,
    /// Element `MunitionKey`.
    pub munition_key: String,
    /// Element `Quantity`.
    pub quantity: String,
}

/// The `Load` element of `ComponentData`.
#[derive(Debug, Clone, PartialEq, Eq)]
pub struct Load {
    /// Text content.
    pub text: Option<String>,
    /// Element `MagSaveData`.
    pub mag_save_data: Vec<LoadMagSaveData>,
}

/// The `MagSaveData` element of `Load`.
#[derive(Debug, Clone, PartialEq, Eq)]
pub struct LoadMagSaveData {
    /// Text content.
    pub text: Option<String>,
    /// Element `MagazineKey`.
    pub magazine_key: String,
    /// Element `MunitionKey`.
    pub munition_key: String,
    /// Element `Quantity`.
    pub quantity: String,
}

/// The `WeaponGroups` element of `Ship`.
#[derive(Debug, Clone, PartialEq, Eq)]
pub struct WeaponGroups {
    /// Text content.
    pub text: Option<String>,
    /// Element `WepGroup`.
    pub wep_group: Vec<WepGroup>,
}

/// The `WepGroup` element of `WeaponGroups`.
#[derive(Debug, Clone, PartialEq, Eq)]
pub struct WepGroup {
    /// Attribute `Name`.
    pub name: String,
    /// Text content.
    pub text: Option<String>,
    /// Element `MemberKeys`.
    pub member_keys: MemberKeys,
}

/// The `MemberKeys` element of `WepGroup`.
#[derive(Debug, Clone, PartialEq, Eq)]
pub struct MemberKeys {
    /// Text content.
    pub text: Option<String>,
    /// Element `string`.
    pub string: Vec<String>,
}

/// The `TemplateMissileTypes` element of `Ship`.
#[derive(Debug, Clone, PartialEq, Eq)]
pub struct ShipTemplateMissileTypes {}

/// The `InitialFormation` element of `Ship`.
#[derive(Debug, Clone, PartialEq, Eq)]
pub struct InitialFormation {
    /// Text content.
    pub text: Option<String>,
    /// Element `RelativePosition`.
    pub relative_position: Option<RelativePosition>,
    /// Element `GuideKey`.
    pub guide_key: Option<String>,
}

/// The `RelativePosition` element of `InitialFormation`.
#[derive(Debug, Clone, PartialEq, Eq)]
pub struct RelativePosition {
    /// Text content.
    pub text: Option<String>,
    /// Element `x`.
    pub x: String,
    /// Element `y`.
    pub y: String,
    /// Element `z`.
    pub z: String,
}

} // verus!
