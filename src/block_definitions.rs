//! The closed set of block kinds, their identifiers and the palettes that
//! building generators draw from.

use vstd::prelude::*;

verus! {

/// An RGB colour, one byte per channel.
pub type RGBTuple = (u8, u8, u8);

/// One kind of block. Equality is by kind; everything else about a block
/// (its identifier, its state properties) is a fixed function of the kind.
#[derive(Copy, Clone, PartialEq, Eq, Structural, PartialOrd, Ord, Hash, Debug)]
pub enum Block {
    AcaciaPlanks,
    Air,
    Andesite,
    BirchLeaves,
    BirchLog,
    BlackConcrete,
    Blackstone,
    BlueFlower,
    BlueTerracotta,
    Brick,
    Cauldron,
    ChiseledStoneBricks,
    CobblestoneWall,
    Cobblestone,
    CrackedPolishedBlackstoneBricks,
    CrackedStoneBricks,
    CrimsonPlanks,
    CutSandstone,
    CyanConcrete,
    DarkOakPlanks,
    DeepslateBricks,
    Diorite,
    Dirt,
    EndStoneBricks,
    Farmland,
    Glass,
    Glowstone,
    Granite,
    GrassBlock,
    Grass,
    Gravel,
    GrayConcrete,
    GrayTerracotta,
    GreenStainedHardenedClay,
    GreenWool,
    HayBale,
    IronBars,
    IronBlock,
    JunglePlanks,
    Ladder,
    LightBlueConcrete,
    LightBlueTerracotta,
    LightGrayConcrete,
    MossBlock,
    MossyCobblestone,
    MudBricks,
    NetherBricks,
    OakFence,
    OakLeaves,
    OakLog,
    OakPlanks,
    OakSlab,
    OrangeTerracotta,
    Podzol,
    PolishedAndesite,
    PolishedBasalt,
    PolishedBlackstoneBricks,
    PolishedBlackstone,
    PolishedDeepslate,
    PolishedDiorite,
    PolishedGranite,
    Prismarine,
    PurpurBlock,
    PurpurPillar,
    QuartzBricks,
    Rail,
    RedFlower,
    RedNetherBricks,
    RedTerracotta,
    RedWool,
    Sand,
    Sandstone,
    Scaffolding,
    SmoothQuartz,
    SmoothRedSandstone,
    SmoothSandstone,
    SmoothStone,
    Sponge,
    SpruceLog,
    SprucePlanks,
    StoneBlockSlab,
    StoneBrickSlab,
    StoneBricks,
    Stone,
    Terracotta,
    WarpedPlanks,
    Water,
    WhiteConcrete,
    WhiteFlower,
    WhiteStainedGlass,
    WhiteTerracotta,
    WhiteWool,
    YellowConcrete,
    YellowFlower,
    YellowWool,
    LimeConcrete,
    CyanWool,
    BlueConcrete,
    PurpleConcrete,
    RedConcrete,
    MagentaConcrete,
    BrownWool,
    OxidizedCopper,
    YellowTerracotta,
    SnowBlock,
    SnowLayer,
    Sign,
    Carrots,
    DarkOakDoorLower,
    DarkOakDoorUpper,
    Potatoes,
    Wheat,
    Bedrock,
}

impl Block {
    /// The identifier of the block inside its namespace.
    pub open spec fn spec_name(self) -> Seq<char> {
        match self {
            Block::AcaciaPlanks => "acacia_planks"@,
            Block::Air => "air"@,
            Block::Andesite => "andesite"@,
            Block::BirchLeaves => "birch_leaves"@,
            Block::BirchLog => "birch_log"@,
            Block::BlackConcrete => "black_concrete"@,
            Block::Blackstone => "blackstone"@,
            Block::BlueFlower => "blue_orchid"@,
            Block::BlueTerracotta => "blue_terracotta"@,
            Block::Brick => "bricks"@,
            Block::Cauldron => "cauldron"@,
            Block::ChiseledStoneBricks => "chiseled_stone_bricks"@,
            Block::CobblestoneWall => "cobblestone_wall"@,
            Block::Cobblestone => "cobblestone"@,
            Block::CrackedPolishedBlackstoneBricks => "cracked_polished_blackstone_bricks"@,
            Block::CrackedStoneBricks => "cracked_stone_bricks"@,
            Block::CrimsonPlanks => "crimson_planks"@,
            Block::CutSandstone => "cut_sandstone"@,
            Block::CyanConcrete => "cyan_concrete"@,
            Block::DarkOakPlanks => "dark_oak_planks"@,
            Block::DeepslateBricks => "deepslate_bricks"@,
            Block::Diorite => "diorite"@,
            Block::Dirt => "dirt"@,
            Block::EndStoneBricks => "end_stone_bricks"@,
            Block::Farmland => "farmland"@,
            Block::Glass => "glass_pane"@,
            Block::Glowstone => "glowstone"@,
            Block::Granite => "granite"@,
            Block::GrassBlock => "grass_block"@,
            Block::Grass => "tall_grass"@,
            Block::Gravel => "gravel"@,
            Block::GrayConcrete => "gray_concrete"@,
            Block::GrayTerracotta => "gray_terracotta"@,
            Block::GreenStainedHardenedClay => "green_terracotta"@,
            Block::GreenWool => "green_wool"@,
            Block::HayBale => "hay_block"@,
            Block::IronBars => "iron_bars"@,
            Block::IronBlock => "iron_block"@,
            Block::JunglePlanks => "jungle_planks"@,
            Block::Ladder => "ladder"@,
            Block::LightBlueConcrete => "light_blue_concrete"@,
            Block::LightBlueTerracotta => "light_blue_terracotta"@,
            Block::LightGrayConcrete => "light_gray_concrete"@,
            Block::MossBlock => "moss_block"@,
            Block::MossyCobblestone => "mossy_cobblestone"@,
            Block::MudBricks => "mud_bricks"@,
            Block::NetherBricks => "nether_bricks"@,
            Block::OakFence => "oak_fence"@,
            Block::OakLeaves => "oak_leaves"@,
            Block::OakLog => "oak_log"@,
            Block::OakPlanks => "oak_planks"@,
            Block::OakSlab => "oak_slab"@,
            Block::OrangeTerracotta => "orange_terracotta"@,
            Block::Podzol => "podzol"@,
            Block::PolishedAndesite => "polished_andesite"@,
            Block::PolishedBasalt => "polished_basalt"@,
            Block::PolishedBlackstoneBricks => "polished_blackstone_bricks"@,
            Block::PolishedBlackstone => "polished_blackstone"@,
            Block::PolishedDeepslate => "polished_deepslate"@,
            Block::PolishedDiorite => "polished_diorite"@,
            Block::PolishedGranite => "polished_granite"@,
            Block::Prismarine => "prismarine"@,
            Block::PurpurBlock => "purpur_block"@,
            Block::PurpurPillar => "purpur_pillar"@,
            Block::QuartzBricks => "quartz_bricks"@,
            Block::Rail => "rail"@,
            Block::RedFlower => "poppy"@,
            Block::RedNetherBricks => "red_nether_bricks"@,
            Block::RedTerracotta => "red_terracotta"@,
            Block::RedWool => "red_wool"@,
            Block::Sand => "sand"@,
            Block::Sandstone => "sandstone"@,
            Block::Scaffolding => "scaffolding"@,
            Block::SmoothQuartz => "smooth_quartz"@,
            Block::SmoothRedSandstone => "smooth_red_sandstone"@,
            Block::SmoothSandstone => "smooth_sandstone"@,
            Block::SmoothStone => "smooth_stone"@,
            Block::Sponge => "sponge"@,
            Block::SpruceLog => "spruce_log"@,
            Block::SprucePlanks => "spruce_planks"@,
            Block::StoneBlockSlab => "stone_slab"@,
            Block::StoneBrickSlab => "stone_brick_slab"@,
            Block::StoneBricks => "stone_bricks"@,
            Block::Stone => "stone"@,
            Block::Terracotta => "terracotta"@,
            Block::WarpedPlanks => "warped_planks"@,
            Block::Water => "water"@,
            Block::WhiteConcrete => "white_concrete"@,
            Block::WhiteFlower => "azure_bluet"@,
            Block::WhiteStainedGlass => "white_stained_glass"@,
            Block::WhiteTerracotta => "white_terracotta"@,
            Block::WhiteWool => "white_wool"@,
            Block::YellowConcrete => "yellow_concrete"@,
            Block::YellowFlower => "dandelion"@,
            Block::YellowWool => "yellow_wool"@,
            Block::LimeConcrete => "lime_concrete"@,
            Block::CyanWool => "cyan_wool"@,
            Block::BlueConcrete => "blue_concrete"@,
            Block::PurpleConcrete => "purple_concrete"@,
            Block::RedConcrete => "red_concrete"@,
            Block::MagentaConcrete => "magenta_concrete"@,
            Block::BrownWool => "brown_wool"@,
            Block::OxidizedCopper => "oxidized_copper"@,
            Block::YellowTerracotta => "yellow_terracotta"@,
            Block::SnowBlock => "snow_block"@,
            Block::SnowLayer => "snow"@,
            Block::Sign => "oak_sign"@,
            Block::Carrots => "carrots"@,
            Block::DarkOakDoorLower => "dark_oak_door"@,
            Block::DarkOakDoorUpper => "dark_oak_door"@,
            Block::Potatoes => "potatoes"@,
            Block::Wheat => "wheat"@,
            Block::Bedrock => "bedrock"@,
        }
    }

    /// The state properties that the block carries, as (key, value) pairs.
    pub open spec fn spec_properties(self) -> Option<Seq<(Seq<char>, Seq<char>)>> {
        match self {
            Block::Carrots => Some(seq![("age"@, "7"@)]),
            Block::Potatoes => Some(seq![("age"@, "7"@)]),
            Block::DarkOakDoorLower => Some(seq![("half"@, "lower"@)]),
            Block::DarkOakDoorUpper => Some(seq![("half"@, "upper"@)]),
            Block::Sign => Some(seq![("rotation"@, "6"@), ("waterlogged"@, "false"@)]),
            _ => None,
        }
    }

    /// The namespace that every block identifier lives in.
    pub fn namespace(&self) -> (r: &'static str)
        ensures
            r@ == block_namespace(),
    {
        "minecraft"
    }

    /// The identifier of this block inside its namespace.
    pub fn name(&self) -> (r: &'static str)
        ensures
            r@ == self.spec_name(),
    {
        match self {
            Block::AcaciaPlanks => "acacia_planks",
            Block::Air => "air",
            Block::Andesite => "andesite",
            Block::BirchLeaves => "birch_leaves",
            Block::BirchLog => "birch_log",
            Block::BlackConcrete => "black_concrete",
            Block::Blackstone => "blackstone",
            Block::BlueFlower => "blue_orchid",
            Block::BlueTerracotta => "blue_terracotta",
            Block::Brick => "bricks",
            Block::Cauldron => "cauldron",
            Block::ChiseledStoneBricks => "chiseled_stone_bricks",
            Block::CobblestoneWall => "cobblestone_wall",
            Block::Cobblestone => "cobblestone",
            Block::CrackedPolishedBlackstoneBricks => "cracked_polished_blackstone_bricks",
            Block::CrackedStoneBricks => "cracked_stone_bricks",
            Block::CrimsonPlanks => "crimson_planks",
            Block::CutSandstone => "cut_sandstone",
            Block::CyanConcrete => "cyan_concrete",
            Block::DarkOakPlanks => "dark_oak_planks",
            Block::DeepslateBricks => "deepslate_bricks",
            Block::Diorite => "diorite",
            Block::Dirt => "dirt",
            Block::EndStoneBricks => "end_stone_bricks",
            Block::Farmland => "farmland",
            Block::Glass => "glass_pane",
            Block::Glowstone => "glowstone",
            Block::Granite => "granite",
            Block::GrassBlock => "grass_block",
            Block::Grass => "tall_grass",
            Block::Gravel => "gravel",
            Block::GrayConcrete => "gray_concrete",
            Block::GrayTerracotta => "gray_terracotta",
            Block::GreenStainedHardenedClay => "green_terracotta",
            Block::GreenWool => "green_wool",
            Block::HayBale => "hay_block",
            Block::IronBars => "iron_bars",
            Block::IronBlock => "iron_block",
            Block::JunglePlanks => "jungle_planks",
            Block::Ladder => "ladder",
            Block::LightBlueConcrete => "light_blue_concrete",
            Block::LightBlueTerracotta => "light_blue_terracotta",
            Block::LightGrayConcrete => "light_gray_concrete",
            Block::MossBlock => "moss_block",
            Block::MossyCobblestone => "mossy_cobblestone",
            Block::MudBricks => "mud_bricks",
            Block::NetherBricks => "nether_bricks",
            Block::OakFence => "oak_fence",
            Block::OakLeaves => "oak_leaves",
            Block::OakLog => "oak_log",
            Block::OakPlanks => "oak_planks",
            Block::OakSlab => "oak_slab",
            Block::OrangeTerracotta => "orange_terracotta",
            Block::Podzol => "podzol",
            Block::PolishedAndesite => "polished_andesite",
            Block::PolishedBasalt => "polished_basalt",
            Block::PolishedBlackstoneBricks => "polished_blackstone_bricks",
            Block::PolishedBlackstone => "polished_blackstone",
            Block::PolishedDeepslate => "polished_deepslate",
            Block::PolishedDiorite => "polished_diorite",
            Block::PolishedGranite => "polished_granite",
            Block::Prismarine => "prismarine",
            Block::PurpurBlock => "purpur_block",
            Block::PurpurPillar => "purpur_pillar",
            Block::QuartzBricks => "quartz_bricks",
            Block::Rail => "rail",
            Block::RedFlower => "poppy",
            Block::RedNetherBricks => "red_nether_bricks",
            Block::RedTerracotta => "red_terracotta",
            Block::RedWool => "red_wool",
            Block::Sand => "sand",
            Block::Sandstone => "sandstone",
            Block::Scaffolding => "scaffolding",
            Block::SmoothQuartz => "smooth_quartz",
            Block::SmoothRedSandstone => "smooth_red_sandstone",
            Block::SmoothSandstone => "smooth_sandstone",
            Block::SmoothStone => "smooth_stone",
            Block::Sponge => "sponge",
            Block::SpruceLog => "spruce_log",
            Block::SprucePlanks => "spruce_planks",
            Block::StoneBlockSlab => "stone_slab",
            Block::StoneBrickSlab => "stone_brick_slab",
            Block::StoneBricks => "stone_bricks",
            Block::Stone => "stone",
            Block::Terracotta => "terracotta",
            Block::WarpedPlanks => "warped_planks",
            Block::Water => "water",
            Block::WhiteConcrete => "white_concrete",
            Block::WhiteFlower => "azure_bluet",
            Block::WhiteStainedGlass => "white_stained_glass",
            Block::WhiteTerracotta => "white_terracotta",
            Block::WhiteWool => "white_wool",
            Block::YellowConcrete => "yellow_concrete",
            Block::YellowFlower => "dandelion",
            Block::YellowWool => "yellow_wool",
            Block::LimeConcrete => "lime_concrete",
            Block::CyanWool => "cyan_wool",
            Block::BlueConcrete => "blue_concrete",
            Block::PurpleConcrete => "purple_concrete",
            Block::RedConcrete => "red_concrete",
            Block::MagentaConcrete => "magenta_concrete",
            Block::BrownWool => "brown_wool",
            Block::OxidizedCopper => "oxidized_copper",
            Block::YellowTerracotta => "yellow_terracotta",
            Block::SnowBlock => "snow_block",
            Block::SnowLayer => "snow",
            Block::Sign => "oak_sign",
            Block::Carrots => "carrots",
            Block::DarkOakDoorLower => "dark_oak_door",
            Block::DarkOakDoorUpper => "dark_oak_door",
            Block::Potatoes => "potatoes",
            Block::Wheat => "wheat",
            Block::Bedrock => "bedrock",
        }
    }

    /// The state properties of this block, if its kind has any.
    pub fn properties(&self) -> (r: Option<Vec<(&'static str, &'static str)>>)
        ensures
            r is None <==> self.spec_properties() is None,
            r is Some ==> self.spec_properties() == Some(
                r->Some_0@.map_values(|p: (&'static str, &'static str)| (p.0@, p.1@)),
            ),
    {
        let r = match self {
            Block::Carrots | Block::Potatoes => Some(vec![("age", "7")]),
            Block::DarkOakDoorLower => Some(vec![("half", "lower")]),
            Block::DarkOakDoorUpper => Some(vec![("half", "upper")]),
            Block::Sign => Some(vec![("rotation", "6"), ("waterlogged", "false")]),
            _ => None,
        };
        proof {
            if r is Some {
                assert(self.spec_properties() == Some(
                    r->Some_0@.map_values(|p: (&'static str, &'static str)| (p.0@, p.1@)),
                ));
            }
        }
        r
    }
}

/// The namespace shared by all block identifiers.
pub open spec fn block_namespace() -> Seq<char> {
    "minecraft"@
}

/// Building wall colours and the block that stands for each.
pub open spec fn wall_colors() -> Seq<(RGBTuple, Block)> {
    seq![
        ((233, 107, 57), Block::Brick),
        ((18, 12, 13), Block::CrackedPolishedBlackstoneBricks),
        ((76, 127, 153), Block::CyanConcrete),
        ((0, 0, 0), Block::DeepslateBricks),
        ((186, 195, 142), Block::EndStoneBricks),
        ((57, 41, 35), Block::GrayTerracotta),
        ((112, 108, 138), Block::LightBlueTerracotta),
        ((122, 92, 66), Block::MudBricks),
        ((24, 13, 14), Block::NetherBricks),
        ((159, 82, 36), Block::OrangeTerracotta),
        ((128, 128, 128), Block::PolishedAndesite),
        ((174, 173, 174), Block::PolishedDiorite),
        ((141, 101, 142), Block::PurpurPillar),
        ((142, 60, 46), Block::RedTerracotta),
        ((153, 83, 28), Block::SmoothRedSandstone),
        ((224, 216, 175), Block::SmoothSandstone),
        ((188, 182, 179), Block::SmoothStone),
        ((35, 86, 85), Block::WarpedPlanks),
        ((255, 255, 255), Block::WhiteConcrete),
        ((209, 177, 161), Block::WhiteTerracotta),
        ((191, 147, 42), Block::YellowTerracotta),
    ]
}

/// Building floor colours and the block that stands for each.
pub open spec fn floor_colors() -> Seq<(RGBTuple, Block)> {
    seq![
        ((181, 101, 59), Block::AcaciaPlanks),
        ((22, 15, 16), Block::Blackstone),
        ((104, 51, 74), Block::CrimsonPlanks),
        ((82, 55, 26), Block::DarkOakPlanks),
        ((182, 133, 99), Block::JunglePlanks),
        ((33, 128, 185), Block::LightBlueConcrete),
        ((78, 103, 43), Block::MossBlock),
        ((171, 138, 88), Block::OakPlanks),
        ((0, 128, 0), Block::OxidizedCopper),
        ((18, 12, 13), Block::PolishedBlackstone),
        ((64, 64, 64), Block::PolishedDeepslate),
        ((255, 255, 255), Block::PolishedDiorite),
        ((143, 96, 79), Block::PolishedGranite),
        ((141, 101, 142), Block::PurpurBlock),
        ((128, 0, 0), Block::RedNetherBricks),
        ((153, 83, 28), Block::SmoothRedSandstone),
        ((128, 96, 57), Block::SprucePlanks),
        ((128, 128, 128), Block::StoneBricks),
        ((150, 93, 68), Block::Terracotta),
        ((35, 86, 85), Block::WarpedPlanks),
    ]
}

/// Blocks used for building corners.
pub open spec fn corner_blocks() -> Seq<Block> {
    seq![
        Block::StoneBricks,
        Block::Cobblestone,
        Block::Brick,
        Block::MossyCobblestone,
        Block::Sandstone,
        Block::RedNetherBricks,
        Block::Blackstone,
        Block::SmoothQuartz,
        Block::ChiseledStoneBricks,
        Block::PolishedBasalt,
        Block::CutSandstone,
        Block::PolishedBlackstoneBricks,
        Block::Andesite,
        Block::Granite,
        Block::Diorite,
        Block::CrackedStoneBricks,
        Block::Prismarine,
        Block::BlueTerracotta,
        Block::QuartzBricks,
    ]
}

/// The blocks of a colour table, in table order.
pub open spec fn blocks_of(table: Seq<(RGBTuple, Block)>) -> Seq<Block> {
    table.map_values(|e: (RGBTuple, Block)| e.1)
}

/// Variations for building corners.
pub fn building_corner_variations() -> (r: Vec<Block>)
    ensures
        r@ == corner_blocks(),
{
    let r = vec![
        Block::StoneBricks,
        Block::Cobblestone,
        Block::Brick,
        Block::MossyCobblestone,
        Block::Sandstone,
        Block::RedNetherBricks,
        Block::Blackstone,
        Block::SmoothQuartz,
        Block::ChiseledStoneBricks,
        Block::PolishedBasalt,
        Block::CutSandstone,
        Block::PolishedBlackstoneBricks,
        Block::Andesite,
        Block::Granite,
        Block::Diorite,
        Block::CrackedStoneBricks,
        Block::Prismarine,
        Block::BlueTerracotta,
        Block::QuartzBricks,
    ];
    assert(r@ == corner_blocks());
    r
}

/// The blocks of a colour table, in order.
fn table_blocks(table: Vec<(RGBTuple, Block)>) -> (r: Vec<Block>)
    ensures
        r@ == blocks_of(table@),
{
    let mut r: Vec<Block> = Vec::new();
    let mut i: usize = 0;
    while i < table.len()
        invariant
            i <= table.len(),
            r@ == blocks_of(table@.subrange(0, i as int)),
        decreases table.len() - i,
    {
        r.push(table[i].1);
        i = i + 1;
        assert(blocks_of(table@.subrange(0, i as int)) =~= blocks_of(
            table@.subrange(0, i - 1 as int),
        ).push(table@[i - 1].1));
    }
    assert(table@.subrange(0, i as int) =~= table@);
    r
}

/// Variations for building walls: the blocks of the wall colour table.
pub fn building_wall_variations() -> (r: Vec<Block>)
    ensures
        r@ == blocks_of(wall_colors()),
{
    table_blocks(building_wall_color_map())
}

/// Building wall colours (after the `building:colour` key) and their blocks.
pub fn building_wall_color_map() -> (r: Vec<(RGBTuple, Block)>)
    ensures
        r@ == wall_colors(),
{
    let r = vec![
        ((233, 107, 57), Block::Brick),
        ((18, 12, 13), Block::CrackedPolishedBlackstoneBricks),
        ((76, 127, 153), Block::CyanConcrete),
        ((0, 0, 0), Block::DeepslateBricks),
        ((186, 195, 142), Block::EndStoneBricks),
        ((57, 41, 35), Block::GrayTerracotta),
        ((112, 108, 138), Block::LightBlueTerracotta),
        ((122, 92, 66), Block::MudBricks),
        ((24, 13, 14), Block::NetherBricks),
        ((159, 82, 36), Block::OrangeTerracotta),
        ((128, 128, 128), Block::PolishedAndesite),
        ((174, 173, 174), Block::PolishedDiorite),
        ((141, 101, 142), Block::PurpurPillar),
        ((142, 60, 46), Block::RedTerracotta),
        ((153, 83, 28), Block::SmoothRedSandstone),
        ((224, 216, 175), Block::SmoothSandstone),
        ((188, 182, 179), Block::SmoothStone),
        ((35, 86, 85), Block::WarpedPlanks),
        ((255, 255, 255), Block::WhiteConcrete),
        ((209, 177, 161), Block::WhiteTerracotta),
        ((191, 147, 42), Block::YellowTerracotta),
    ];
    assert(r@ == wall_colors());
    r
}

/// Variations for building floors. These are drawn from the wall colour
/// table, as the wall variations are.
pub fn building_floor_variations() -> (r: Vec<Block>)
    ensures
        r@ == blocks_of(wall_colors()),
{
    table_blocks(building_wall_color_map())
}

/// Building floor colours and their blocks.
pub fn building_floor_color_map() -> (r: Vec<(RGBTuple, Block)>)
    ensures
        r@ == floor_colors(),
{
    let r = vec![
        ((181, 101, 59), Block::AcaciaPlanks),
        ((22, 15, 16), Block::Blackstone),
        ((104, 51, 74), Block::CrimsonPlanks),
        ((82, 55, 26), Block::DarkOakPlanks),
        ((182, 133, 99), Block::JunglePlanks),
        ((33, 128, 185), Block::LightBlueConcrete),
        ((78, 103, 43), Block::MossBlock),
        ((171, 138, 88), Block::OakPlanks),
        ((0, 128, 0), Block::OxidizedCopper),
        ((18, 12, 13), Block::PolishedBlackstone),
        ((64, 64, 64), Block::PolishedDeepslate),
        ((255, 255, 255), Block::PolishedDiorite),
        ((143, 96, 79), Block::PolishedGranite),
        ((141, 101, 142), Block::PurpurBlock),
        ((128, 0, 0), Block::RedNetherBricks),
        ((153, 83, 28), Block::SmoothRedSandstone),
        ((128, 96, 57), Block::SprucePlanks),
        ((128, 128, 128), Block::StoneBricks),
        ((150, 93, 68), Block::Terracotta),
        ((35, 86, 85), Block::WarpedPlanks),
    ];
    assert(r@ == floor_colors());
    r
}

/// Every block identifier is short.
pub proof fn lemma_name_short(b: Block)
    ensures
        b.spec_name().len() <= 40,
{
    match b {
        Block::AcaciaPlanks => {
            reveal_strlit("acacia_planks");
        },
        Block::Air => {
            reveal_strlit("air");
        },
        Block::Andesite => {
            reveal_strlit("andesite");
        },
        Block::BirchLeaves => {
            reveal_strlit("birch_leaves");
        },
        Block::BirchLog => {
            reveal_strlit("birch_log");
        },
        Block::BlackConcrete => {
            reveal_strlit("black_concrete");
        },
        Block::Blackstone => {
            reveal_strlit("blackstone");
        },
        Block::BlueFlower => {
            reveal_strlit("blue_orchid");
        },
        Block::BlueTerracotta => {
            reveal_strlit("blue_terracotta");
        },
        Block::Brick => {
            reveal_strlit("bricks");
        },
        Block::Cauldron => {
            reveal_strlit("cauldron");
        },
        Block::ChiseledStoneBricks => {
            reveal_strlit("chiseled_stone_bricks");
        },
        Block::CobblestoneWall => {
            reveal_strlit("cobblestone_wall");
        },
        Block::Cobblestone => {
            reveal_strlit("cobblestone");
        },
        Block::CrackedPolishedBlackstoneBricks => {
            reveal_strlit("cracked_polished_blackstone_bricks");
        },
        Block::CrackedStoneBricks => {
            reveal_strlit("cracked_stone_bricks");
        },
        Block::CrimsonPlanks => {
            reveal_strlit("crimson_planks");
        },
        Block::CutSandstone => {
            reveal_strlit("cut_sandstone");
        },
        Block::CyanConcrete => {
            reveal_strlit("cyan_concrete");
        },
        Block::DarkOakPlanks => {
            reveal_strlit("dark_oak_planks");
        },
        Block::DeepslateBricks => {
            reveal_strlit("deepslate_bricks");
        },
        Block::Diorite => {
            reveal_strlit("diorite");
        },
        Block::Dirt => {
            reveal_strlit("dirt");
        },
        Block::EndStoneBricks => {
            reveal_strlit("end_stone_bricks");
        },
        Block::Farmland => {
            reveal_strlit("farmland");
        },
        Block::Glass => {
            reveal_strlit("glass_pane");
        },
        Block::Glowstone => {
            reveal_strlit("glowstone");
        },
        Block::Granite => {
            reveal_strlit("granite");
        },
        Block::GrassBlock => {
            reveal_strlit("grass_block");
        },
        Block::Grass => {
            reveal_strlit("tall_grass");
        },
        Block::Gravel => {
            reveal_strlit("gravel");
        },
        Block::GrayConcrete => {
            reveal_strlit("gray_concrete");
        },
        Block::GrayTerracotta => {
            reveal_strlit("gray_terracotta");
        },
        Block::GreenStainedHardenedClay => {
            reveal_strlit("green_terracotta");
        },
        Block::GreenWool => {
            reveal_strlit("green_wool");
        },
        Block::HayBale => {
            reveal_strlit("hay_block");
        },
        Block::IronBars => {
            reveal_strlit("iron_bars");
        },
        Block::IronBlock => {
            reveal_strlit("iron_block");
        },
        Block::JunglePlanks => {
            reveal_strlit("jungle_planks");
        },
        Block::Ladder => {
            reveal_strlit("ladder");
        },
        Block::LightBlueConcrete => {
            reveal_strlit("light_blue_concrete");
        },
        Block::LightBlueTerracotta => {
            reveal_strlit("light_blue_terracotta");
        },
        Block::LightGrayConcrete => {
            reveal_strlit("light_gray_concrete");
        },
        Block::MossBlock => {
            reveal_strlit("moss_block");
        },
        Block::MossyCobblestone => {
            reveal_strlit("mossy_cobblestone");
        },
        Block::MudBricks => {
            reveal_strlit("mud_bricks");
        },
        Block::NetherBricks => {
            reveal_strlit("nether_bricks");
        },
        Block::OakFence => {
            reveal_strlit("oak_fence");
        },
        Block::OakLeaves => {
            reveal_strlit("oak_leaves");
        },
        Block::OakLog => {
            reveal_strlit("oak_log");
        },
        Block::OakPlanks => {
            reveal_strlit("oak_planks");
        },
        Block::OakSlab => {
            reveal_strlit("oak_slab");
        },
        Block::OrangeTerracotta => {
            reveal_strlit("orange_terracotta");
        },
        Block::Podzol => {
            reveal_strlit("podzol");
        },
        Block::PolishedAndesite => {
            reveal_strlit("polished_andesite");
        },
        Block::PolishedBasalt => {
            reveal_strlit("polished_basalt");
        },
        Block::PolishedBlackstoneBricks => {
            reveal_strlit("polished_blackstone_bricks");
        },
        Block::PolishedBlackstone => {
            reveal_strlit("polished_blackstone");
        },
        Block::PolishedDeepslate => {
            reveal_strlit("polished_deepslate");
        },
        Block::PolishedDiorite => {
            reveal_strlit("polished_diorite");
        },
        Block::PolishedGranite => {
            reveal_strlit("polished_granite");
        },
        Block::Prismarine => {
            reveal_strlit("prismarine");
        },
        Block::PurpurBlock => {
            reveal_strlit("purpur_block");
        },
        Block::PurpurPillar => {
            reveal_strlit("purpur_pillar");
        },
        Block::QuartzBricks => {
            reveal_strlit("quartz_bricks");
        },
        Block::Rail => {
            reveal_strlit("rail");
        },
        Block::RedFlower => {
            reveal_strlit("poppy");
        },
        Block::RedNetherBricks => {
            reveal_strlit("red_nether_bricks");
        },
        Block::RedTerracotta => {
            reveal_strlit("red_terracotta");
        },
        Block::RedWool => {
            reveal_strlit("red_wool");
        },
        Block::Sand => {
            reveal_strlit("sand");
        },
        Block::Sandstone => {
            reveal_strlit("sandstone");
        },
        Block::Scaffolding => {
            reveal_strlit("scaffolding");
        },
        Block::SmoothQuartz => {
            reveal_strlit("smooth_quartz");
        },
        Block::SmoothRedSandstone => {
            reveal_strlit("smooth_red_sandstone");
        },
        Block::SmoothSandstone => {
            reveal_strlit("smooth_sandstone");
        },
        Block::SmoothStone => {
            reveal_strlit("smooth_stone");
        },
        Block::Sponge => {
            reveal_strlit("sponge");
        },
        Block::SpruceLog => {
            reveal_strlit("spruce_log");
        },
        Block::SprucePlanks => {
            reveal_strlit("spruce_planks");
        },
        Block::StoneBlockSlab => {
            reveal_strlit("stone_slab");
        },
        Block::StoneBrickSlab => {
            reveal_strlit("stone_brick_slab");
        },
        Block::StoneBricks => {
            reveal_strlit("stone_bricks");
        },
        Block::Stone => {
            reveal_strlit("stone");
        },
        Block::Terracotta => {
            reveal_strlit("terracotta");
        },
        Block::WarpedPlanks => {
            reveal_strlit("warped_planks");
        },
        Block::Water => {
            reveal_strlit("water");
        },
        Block::WhiteConcrete => {
            reveal_strlit("white_concrete");
        },
        Block::WhiteFlower => {
            reveal_strlit("azure_bluet");
        },
        Block::WhiteStainedGlass => {
            reveal_strlit("white_stained_glass");
        },
        Block::WhiteTerracotta => {
            reveal_strlit("white_terracotta");
        },
        Block::WhiteWool => {
            reveal_strlit("white_wool");
        },
        Block::YellowConcrete => {
            reveal_strlit("yellow_concrete");
        },
        Block::YellowFlower => {
            reveal_strlit("dandelion");
        },
        Block::YellowWool => {
            reveal_strlit("yellow_wool");
        },
        Block::LimeConcrete => {
            reveal_strlit("lime_concrete");
        },
        Block::CyanWool => {
            reveal_strlit("cyan_wool");
        },
        Block::BlueConcrete => {
            reveal_strlit("blue_concrete");
        },
        Block::PurpleConcrete => {
            reveal_strlit("purple_concrete");
        },
        Block::RedConcrete => {
            reveal_strlit("red_concrete");
        },
        Block::MagentaConcrete => {
            reveal_strlit("magenta_concrete");
        },
        Block::BrownWool => {
            reveal_strlit("brown_wool");
        },
        Block::OxidizedCopper => {
            reveal_strlit("oxidized_copper");
        },
        Block::YellowTerracotta => {
            reveal_strlit("yellow_terracotta");
        },
        Block::SnowBlock => {
            reveal_strlit("snow_block");
        },
        Block::SnowLayer => {
            reveal_strlit("snow");
        },
        Block::Sign => {
            reveal_strlit("oak_sign");
        },
        Block::Carrots => {
            reveal_strlit("carrots");
        },
        Block::DarkOakDoorLower => {
            reveal_strlit("dark_oak_door");
        },
        Block::DarkOakDoorUpper => {
            reveal_strlit("dark_oak_door");
        },
        Block::Potatoes => {
            reveal_strlit("potatoes");
        },
        Block::Wheat => {
            reveal_strlit("wheat");
        },
        Block::Bedrock => {
            reveal_strlit("bedrock");
        },
    }
}

/// Every property key and value is short.
pub proof fn lemma_properties_short(b: Block)
    ensures
        b.spec_properties() matches Some(ps) ==> ps.len() <= 2 && forall|i: int|
            0 <= i < ps.len() ==> (#[trigger] ps[i]).0.len() <= 16 && ps[i].1.len() <= 16,
{
    reveal_strlit("age");
    reveal_strlit("7");
    reveal_strlit("half");
    reveal_strlit("lower");
    reveal_strlit("upper");
    reveal_strlit("rotation");
    reveal_strlit("6");
    reveal_strlit("waterlogged");
    reveal_strlit("false");
}

/// The namespace is short.
pub proof fn lemma_namespace_short()
    ensures
        block_namespace().len() <= 16,
{
    reveal_strlit("minecraft");
}

} // verus!
