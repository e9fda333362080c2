//! Static sky data that is not numeric: constellation line connections,
//! the names of the tracked Solar System bodies, and zodiac date ranges.

use vstd::prelude::*;

use crate::math::decimal_text;
use crate::text::same_text;

verus! {

/// A pair of star IDs representing a constellation line connection.
#[derive(Debug, Clone, Copy)]
pub struct ConstellationLine {
    pub from_id: u32,
    pub to_id: u32,
    pub constellation_name: &'static str,
}

/// Lines 0 to 19 of the constellation table.
pub open spec fn line_block_0() -> Seq<ConstellationLine> {
    seq![
        ConstellationLine { from_id: 9u32, to_id: 17u32, constellation_name: "Orion" },
        ConstellationLine { from_id: 17u32, to_id: 18u32, constellation_name: "Orion" },
        ConstellationLine { from_id: 9u32, to_id: 18u32, constellation_name: "Orion" },
        ConstellationLine { from_id: 18u32, to_id: 7u32, constellation_name: "Orion" },
        ConstellationLine { from_id: 18u32, to_id: 19u32, constellation_name: "Orion" },
        ConstellationLine { from_id: 7u32, to_id: 19u32, constellation_name: "Orion" },
        ConstellationLine { from_id: 20u32, to_id: 21u32, constellation_name: "Ursa Major" },
        ConstellationLine { from_id: 21u32, to_id: 22u32, constellation_name: "Ursa Major" },
        ConstellationLine { from_id: 22u32, to_id: 23u32, constellation_name: "Ursa Major" },
        ConstellationLine { from_id: 23u32, to_id: 20u32, constellation_name: "Ursa Major" },
        ConstellationLine { from_id: 23u32, to_id: 24u32, constellation_name: "Ursa Major" },
        ConstellationLine { from_id: 24u32, to_id: 25u32, constellation_name: "Ursa Major" },
        ConstellationLine { from_id: 25u32, to_id: 26u32, constellation_name: "Ursa Major" },
        ConstellationLine { from_id: 1u32, to_id: 102u32, constellation_name: "Ursa Minor" },
        ConstellationLine { from_id: 102u32, to_id: 100u32, constellation_name: "Ursa Minor" },
        ConstellationLine { from_id: 100u32, to_id: 101u32, constellation_name: "Ursa Minor" },
        ConstellationLine { from_id: 104u32, to_id: 103u32, constellation_name: "Cassiopeia" },
        ConstellationLine { from_id: 103u32, to_id: 105u32, constellation_name: "Cassiopeia" },
        ConstellationLine { from_id: 105u32, to_id: 106u32, constellation_name: "Cassiopeia" },
        ConstellationLine { from_id: 106u32, to_id: 107u32, constellation_name: "Cassiopeia" }
    ]
}

fn push_line_block_0(v: &mut Vec<ConstellationLine>)
    ensures
        final(v)@ == old(v)@ + line_block_0(),
{
    let ghost start = v@;
    v.push(ConstellationLine { from_id: 9, to_id: 17, constellation_name: "Orion" });
    v.push(ConstellationLine { from_id: 17, to_id: 18, constellation_name: "Orion" });
    v.push(ConstellationLine { from_id: 9, to_id: 18, constellation_name: "Orion" });
    v.push(ConstellationLine { from_id: 18, to_id: 7, constellation_name: "Orion" });
    v.push(ConstellationLine { from_id: 18, to_id: 19, constellation_name: "Orion" });
    v.push(ConstellationLine { from_id: 7, to_id: 19, constellation_name: "Orion" });
    v.push(ConstellationLine { from_id: 20, to_id: 21, constellation_name: "Ursa Major" });
    v.push(ConstellationLine { from_id: 21, to_id: 22, constellation_name: "Ursa Major" });
    v.push(ConstellationLine { from_id: 22, to_id: 23, constellation_name: "Ursa Major" });
    v.push(ConstellationLine { from_id: 23, to_id: 20, constellation_name: "Ursa Major" });
    v.push(ConstellationLine { from_id: 23, to_id: 24, constellation_name: "Ursa Major" });
    v.push(ConstellationLine { from_id: 24, to_id: 25, constellation_name: "Ursa Major" });
    v.push(ConstellationLine { from_id: 25, to_id: 26, constellation_name: "Ursa Major" });
    v.push(ConstellationLine { from_id: 1, to_id: 102, constellation_name: "Ursa Minor" });
    v.push(ConstellationLine { from_id: 102, to_id: 100, constellation_name: "Ursa Minor" });
    v.push(ConstellationLine { from_id: 100, to_id: 101, constellation_name: "Ursa Minor" });
    v.push(ConstellationLine { from_id: 104, to_id: 103, constellation_name: "Cassiopeia" });
    v.push(ConstellationLine { from_id: 103, to_id: 105, constellation_name: "Cassiopeia" });
    v.push(ConstellationLine { from_id: 105, to_id: 106, constellation_name: "Cassiopeia" });
    v.push(ConstellationLine { from_id: 106, to_id: 107, constellation_name: "Cassiopeia" });
    assert(v@ =~= start + line_block_0());
}

/// Lines 20 to 39 of the constellation table.
pub open spec fn line_block_1() -> Seq<ConstellationLine> {
    seq![
        ConstellationLine { from_id: 186u32, to_id: 187u32, constellation_name: "Cepheus" },
        ConstellationLine { from_id: 187u32, to_id: 188u32, constellation_name: "Cepheus" },
        ConstellationLine { from_id: 181u32, to_id: 182u32, constellation_name: "Draco" },
        ConstellationLine { from_id: 182u32, to_id: 183u32, constellation_name: "Draco" },
        ConstellationLine { from_id: 183u32, to_id: 185u32, constellation_name: "Draco" },
        ConstellationLine { from_id: 185u32, to_id: 184u32, constellation_name: "Draco" },
        ConstellationLine { from_id: 15u32, to_id: 191u32, constellation_name: "Cygnus" },
        ConstellationLine { from_id: 191u32, to_id: 193u32, constellation_name: "Cygnus" },
        ConstellationLine { from_id: 191u32, to_id: 192u32, constellation_name: "Cygnus" },
        ConstellationLine { from_id: 191u32, to_id: 194u32, constellation_name: "Cygnus" },
        ConstellationLine { from_id: 5u32, to_id: 189u32, constellation_name: "Lyra" },
        ConstellationLine { from_id: 189u32, to_id: 190u32, constellation_name: "Lyra" },
        ConstellationLine { from_id: 190u32, to_id: 5u32, constellation_name: "Lyra" },
        ConstellationLine { from_id: 10u32, to_id: 195u32, constellation_name: "Aquila" },
        ConstellationLine { from_id: 10u32, to_id: 196u32, constellation_name: "Aquila" },
        ConstellationLine { from_id: 4u32, to_id: 167u32, constellation_name: "Bootes" },
        ConstellationLine { from_id: 4u32, to_id: 166u32, constellation_name: "Bootes" },
        ConstellationLine { from_id: 166u32, to_id: 169u32, constellation_name: "Bootes" },
        ConstellationLine { from_id: 169u32, to_id: 168u32, constellation_name: "Bootes" },
        ConstellationLine { from_id: 168u32, to_id: 167u32, constellation_name: "Bootes" }
    ]
}

fn push_line_block_1(v: &mut Vec<ConstellationLine>)
    ensures
        final(v)@ == old(v)@ + line_block_1(),
{
    let ghost start = v@;
    v.push(ConstellationLine { from_id: 186, to_id: 187, constellation_name: "Cepheus" });
    v.push(ConstellationLine { from_id: 187, to_id: 188, constellation_name: "Cepheus" });
    v.push(ConstellationLine { from_id: 181, to_id: 182, constellation_name: "Draco" });
    v.push(ConstellationLine { from_id: 182, to_id: 183, constellation_name: "Draco" });
    v.push(ConstellationLine { from_id: 183, to_id: 185, constellation_name: "Draco" });
    v.push(ConstellationLine { from_id: 185, to_id: 184, constellation_name: "Draco" });
    v.push(ConstellationLine { from_id: 15, to_id: 191, constellation_name: "Cygnus" });
    v.push(ConstellationLine { from_id: 191, to_id: 193, constellation_name: "Cygnus" });
    v.push(ConstellationLine { from_id: 191, to_id: 192, constellation_name: "Cygnus" });
    v.push(ConstellationLine { from_id: 191, to_id: 194, constellation_name: "Cygnus" });
    v.push(ConstellationLine { from_id: 5, to_id: 189, constellation_name: "Lyra" });
    v.push(ConstellationLine { from_id: 189, to_id: 190, constellation_name: "Lyra" });
    v.push(ConstellationLine { from_id: 190, to_id: 5, constellation_name: "Lyra" });
    v.push(ConstellationLine { from_id: 10, to_id: 195, constellation_name: "Aquila" });
    v.push(ConstellationLine { from_id: 10, to_id: 196, constellation_name: "Aquila" });
    v.push(ConstellationLine { from_id: 4, to_id: 167, constellation_name: "Bootes" });
    v.push(ConstellationLine { from_id: 4, to_id: 166, constellation_name: "Bootes" });
    v.push(ConstellationLine { from_id: 166, to_id: 169, constellation_name: "Bootes" });
    v.push(ConstellationLine { from_id: 169, to_id: 168, constellation_name: "Bootes" });
    v.push(ConstellationLine { from_id: 168, to_id: 167, constellation_name: "Bootes" });
    assert(v@ =~= start + line_block_1());
}

/// Lines 40 to 59 of the constellation table.
pub open spec fn line_block_2() -> Seq<ConstellationLine> {
    seq![
        ConstellationLine { from_id: 170u32, to_id: 171u32, constellation_name: "Corona Borealis" },
        ConstellationLine { from_id: 172u32, to_id: 173u32, constellation_name: "Hercules" },
        ConstellationLine { from_id: 172u32, to_id: 174u32, constellation_name: "Hercules" },
        ConstellationLine { from_id: 108u32, to_id: 109u32, constellation_name: "Andromeda" },
        ConstellationLine { from_id: 109u32, to_id: 110u32, constellation_name: "Andromeda" },
        ConstellationLine { from_id: 108u32, to_id: 113u32, constellation_name: "Pegasus" },
        ConstellationLine { from_id: 113u32, to_id: 111u32, constellation_name: "Pegasus" },
        ConstellationLine { from_id: 111u32, to_id: 112u32, constellation_name: "Pegasus" },
        ConstellationLine { from_id: 112u32, to_id: 108u32, constellation_name: "Pegasus" },
        ConstellationLine { from_id: 111u32, to_id: 114u32, constellation_name: "Pegasus" },
        ConstellationLine { from_id: 116u32, to_id: 117u32, constellation_name: "Perseus" },
        ConstellationLine { from_id: 116u32, to_id: 118u32, constellation_name: "Perseus" },
        ConstellationLine { from_id: 6u32, to_id: 119u32, constellation_name: "Auriga" },
        ConstellationLine { from_id: 119u32, to_id: 143u32, constellation_name: "Auriga" },
        ConstellationLine { from_id: 143u32, to_id: 120u32, constellation_name: "Auriga" },
        ConstellationLine { from_id: 120u32, to_id: 121u32, constellation_name: "Auriga" },
        ConstellationLine { from_id: 121u32, to_id: 6u32, constellation_name: "Auriga" },
        ConstellationLine { from_id: 130u32, to_id: 2u32, constellation_name: "Canis Major" },
        ConstellationLine { from_id: 2u32, to_id: 128u32, constellation_name: "Canis Major" },
        ConstellationLine { from_id: 128u32, to_id: 129u32, constellation_name: "Canis Major" }
    ]
}

fn push_line_block_2(v: &mut Vec<ConstellationLine>)
    ensures
        final(v)@ == old(v)@ + line_block_2(),
{
    let ghost start = v@;
    v.push(ConstellationLine { from_id: 170, to_id: 171, constellation_name: "Corona Borealis" });
    v.push(ConstellationLine { from_id: 172, to_id: 173, constellation_name: "Hercules" });
    v.push(ConstellationLine { from_id: 172, to_id: 174, constellation_name: "Hercules" });
    v.push(ConstellationLine { from_id: 108, to_id: 109, constellation_name: "Andromeda" });
    v.push(ConstellationLine { from_id: 109, to_id: 110, constellation_name: "Andromeda" });
    v.push(ConstellationLine { from_id: 108, to_id: 113, constellation_name: "Pegasus" });
    v.push(ConstellationLine { from_id: 113, to_id: 111, constellation_name: "Pegasus" });
    v.push(ConstellationLine { from_id: 111, to_id: 112, constellation_name: "Pegasus" });
    v.push(ConstellationLine { from_id: 112, to_id: 108, constellation_name: "Pegasus" });
    v.push(ConstellationLine { from_id: 111, to_id: 114, constellation_name: "Pegasus" });
    v.push(ConstellationLine { from_id: 116, to_id: 117, constellation_name: "Perseus" });
    v.push(ConstellationLine { from_id: 116, to_id: 118, constellation_name: "Perseus" });
    v.push(ConstellationLine { from_id: 6, to_id: 119, constellation_name: "Auriga" });
    v.push(ConstellationLine { from_id: 119, to_id: 143, constellation_name: "Auriga" });
    v.push(ConstellationLine { from_id: 143, to_id: 120, constellation_name: "Auriga" });
    v.push(ConstellationLine { from_id: 120, to_id: 121, constellation_name: "Auriga" });
    v.push(ConstellationLine { from_id: 121, to_id: 6, constellation_name: "Auriga" });
    v.push(ConstellationLine { from_id: 130, to_id: 2, constellation_name: "Canis Major" });
    v.push(ConstellationLine { from_id: 2, to_id: 128, constellation_name: "Canis Major" });
    v.push(ConstellationLine { from_id: 128, to_id: 129, constellation_name: "Canis Major" });
    assert(v@ =~= start + line_block_2());
}

/// Lines 60 to 79 of the constellation table.
pub open spec fn line_block_3() -> Seq<ConstellationLine> {
    seq![
        ConstellationLine { from_id: 129u32, to_id: 131u32, constellation_name: "Canis Major" },
        ConstellationLine { from_id: 128u32, to_id: 132u32, constellation_name: "Canis Major" },
        ConstellationLine { from_id: 8u32, to_id: 133u32, constellation_name: "Canis Minor" },
        ConstellationLine { from_id: 137u32, to_id: 138u32, constellation_name: "Lepus" },
        ConstellationLine { from_id: 149u32, to_id: 152u32, constellation_name: "Cetus" },
        ConstellationLine { from_id: 152u32, to_id: 151u32, constellation_name: "Cetus" },
        ConstellationLine { from_id: 151u32, to_id: 150u32, constellation_name: "Cetus" },
        ConstellationLine { from_id: 240u32, to_id: 242u32, constellation_name: "Crux" },
        ConstellationLine { from_id: 241u32, to_id: 243u32, constellation_name: "Crux" },
        ConstellationLine { from_id: 237u32, to_id: 239u32, constellation_name: "Centaurus" },
        ConstellationLine { from_id: 239u32, to_id: 238u32, constellation_name: "Centaurus" },
        ConstellationLine { from_id: 175u32, to_id: 176u32, constellation_name: "Ophiuchus" },
        ConstellationLine { from_id: 175u32, to_id: 178u32, constellation_name: "Ophiuchus" },
        ConstellationLine { from_id: 178u32, to_id: 179u32, constellation_name: "Ophiuchus" },
        ConstellationLine { from_id: 179u32, to_id: 177u32, constellation_name: "Ophiuchus" },
        ConstellationLine { from_id: 177u32, to_id: 176u32, constellation_name: "Ophiuchus" },
        ConstellationLine { from_id: 153u32, to_id: 154u32, constellation_name: "Aries" },
        ConstellationLine { from_id: 154u32, to_id: 155u32, constellation_name: "Aries" },
        ConstellationLine { from_id: 143u32, to_id: 11u32, constellation_name: "Taurus" },
        ConstellationLine { from_id: 11u32, to_id: 144u32, constellation_name: "Taurus" }
    ]
}

fn push_line_block_3(v: &mut Vec<ConstellationLine>)
    ensures
        final(v)@ == old(v)@ + line_block_3(),
{
    let ghost start = v@;
    v.push(ConstellationLine { from_id: 129, to_id: 131, constellation_name: "Canis Major" });
    v.push(ConstellationLine { from_id: 128, to_id: 132, constellation_name: "Canis Major" });
    v.push(ConstellationLine { from_id: 8, to_id: 133, constellation_name: "Canis Minor" });
    v.push(ConstellationLine { from_id: 137, to_id: 138, constellation_name: "Lepus" });
    v.push(ConstellationLine { from_id: 149, to_id: 152, constellation_name: "Cetus" });
    v.push(ConstellationLine { from_id: 152, to_id: 151, constellation_name: "Cetus" });
    v.push(ConstellationLine { from_id: 151, to_id: 150, constellation_name: "Cetus" });
    v.push(ConstellationLine { from_id: 240, to_id: 242, constellation_name: "Crux" });
    v.push(ConstellationLine { from_id: 241, to_id: 243, constellation_name: "Crux" });
    v.push(ConstellationLine { from_id: 237, to_id: 239, constellation_name: "Centaurus" });
    v.push(ConstellationLine { from_id: 239, to_id: 238, constellation_name: "Centaurus" });
    v.push(ConstellationLine { from_id: 175, to_id: 176, constellation_name: "Ophiuchus" });
    v.push(ConstellationLine { from_id: 175, to_id: 178, constellation_name: "Ophiuchus" });
    v.push(ConstellationLine { from_id: 178, to_id: 179, constellation_name: "Ophiuchus" });
    v.push(ConstellationLine { from_id: 179, to_id: 177, constellation_name: "Ophiuchus" });
    v.push(ConstellationLine { from_id: 177, to_id: 176, constellation_name: "Ophiuchus" });
    v.push(ConstellationLine { from_id: 153, to_id: 154, constellation_name: "Aries" });
    v.push(ConstellationLine { from_id: 154, to_id: 155, constellation_name: "Aries" });
    v.push(ConstellationLine { from_id: 143, to_id: 11, constellation_name: "Taurus" });
    v.push(ConstellationLine { from_id: 11, to_id: 144, constellation_name: "Taurus" });
    assert(v@ =~= start + line_block_3());
}

/// Lines 80 to 99 of the constellation table.
pub open spec fn line_block_4() -> Seq<ConstellationLine> {
    seq![
        ConstellationLine { from_id: 14u32, to_id: 122u32, constellation_name: "Gemini" },
        ConstellationLine { from_id: 122u32, to_id: 124u32, constellation_name: "Gemini" },
        ConstellationLine { from_id: 124u32, to_id: 127u32, constellation_name: "Gemini" },
        ConstellationLine { from_id: 127u32, to_id: 126u32, constellation_name: "Gemini" },
        ConstellationLine { from_id: 14u32, to_id: 125u32, constellation_name: "Gemini" },
        ConstellationLine { from_id: 125u32, to_id: 123u32, constellation_name: "Gemini" },
        ConstellationLine { from_id: 227u32, to_id: 226u32, constellation_name: "Cancer" },
        ConstellationLine { from_id: 227u32, to_id: 228u32, constellation_name: "Cancer" },
        ConstellationLine { from_id: 219u32, to_id: 221u32, constellation_name: "Leo" },
        ConstellationLine { from_id: 221u32, to_id: 222u32, constellation_name: "Leo" },
        ConstellationLine { from_id: 222u32, to_id: 220u32, constellation_name: "Leo" },
        ConstellationLine { from_id: 220u32, to_id: 223u32, constellation_name: "Leo" },
        ConstellationLine { from_id: 223u32, to_id: 219u32, constellation_name: "Leo" },
        ConstellationLine { from_id: 12u32, to_id: 216u32, constellation_name: "Virgo" },
        ConstellationLine { from_id: 216u32, to_id: 214u32, constellation_name: "Virgo" },
        ConstellationLine { from_id: 214u32, to_id: 217u32, constellation_name: "Virgo" },
        ConstellationLine { from_id: 217u32, to_id: 215u32, constellation_name: "Virgo" },
        ConstellationLine { from_id: 214u32, to_id: 218u32, constellation_name: "Virgo" },
        ConstellationLine { from_id: 212u32, to_id: 213u32, constellation_name: "Libra" },
        ConstellationLine { from_id: 208u32, to_id: 206u32, constellation_name: "Scorpius" }
    ]
}

fn push_line_block_4(v: &mut Vec<ConstellationLine>)
    ensures
        final(v)@ == old(v)@ + line_block_4(),
{
    let ghost start = v@;
    v.push(ConstellationLine { from_id: 14, to_id: 122, constellation_name: "Gemini" });
    v.push(ConstellationLine { from_id: 122, to_id: 124, constellation_name: "Gemini" });
    v.push(ConstellationLine { from_id: 124, to_id: 127, constellation_name: "Gemini" });
    v.push(ConstellationLine { from_id: 127, to_id: 126, constellation_name: "Gemini" });
    v.push(ConstellationLine { from_id: 14, to_id: 125, constellation_name: "Gemini" });
    v.push(ConstellationLine { from_id: 125, to_id: 123, constellation_name: "Gemini" });
    v.push(ConstellationLine { from_id: 227, to_id: 226, constellation_name: "Cancer" });
    v.push(ConstellationLine { from_id: 227, to_id: 228, constellation_name: "Cancer" });
    v.push(ConstellationLine { from_id: 219, to_id: 221, constellation_name: "Leo" });
    v.push(ConstellationLine { from_id: 221, to_id: 222, constellation_name: "Leo" });
    v.push(ConstellationLine { from_id: 222, to_id: 220, constellation_name: "Leo" });
    v.push(ConstellationLine { from_id: 220, to_id: 223, constellation_name: "Leo" });
    v.push(ConstellationLine { from_id: 223, to_id: 219, constellation_name: "Leo" });
    v.push(ConstellationLine { from_id: 12, to_id: 216, constellation_name: "Virgo" });
    v.push(ConstellationLine { from_id: 216, to_id: 214, constellation_name: "Virgo" });
    v.push(ConstellationLine { from_id: 214, to_id: 217, constellation_name: "Virgo" });
    v.push(ConstellationLine { from_id: 217, to_id: 215, constellation_name: "Virgo" });
    v.push(ConstellationLine { from_id: 214, to_id: 218, constellation_name: "Virgo" });
    v.push(ConstellationLine { from_id: 212, to_id: 213, constellation_name: "Libra" });
    v.push(ConstellationLine { from_id: 208, to_id: 206, constellation_name: "Scorpius" });
    assert(v@ =~= start + line_block_4());
}

/// Lines 100 to 116 of the constellation table.
pub open spec fn line_block_5() -> Seq<ConstellationLine> {
    seq![
        ConstellationLine { from_id: 206u32, to_id: 13u32, constellation_name: "Scorpius" },
        ConstellationLine { from_id: 13u32, to_id: 211u32, constellation_name: "Scorpius" },
        ConstellationLine { from_id: 211u32, to_id: 207u32, constellation_name: "Scorpius" },
        ConstellationLine { from_id: 207u32, to_id: 210u32, constellation_name: "Scorpius" },
        ConstellationLine { from_id: 210u32, to_id: 205u32, constellation_name: "Scorpius" },
        ConstellationLine { from_id: 205u32, to_id: 204u32, constellation_name: "Scorpius" },
        ConstellationLine { from_id: 204u32, to_id: 209u32, constellation_name: "Scorpius" },
        ConstellationLine { from_id: 201u32, to_id: 200u32, constellation_name: "Sagittarius" },
        ConstellationLine { from_id: 200u32, to_id: 197u32, constellation_name: "Sagittarius" },
        ConstellationLine { from_id: 197u32, to_id: 199u32, constellation_name: "Sagittarius" },
        ConstellationLine { from_id: 199u32, to_id: 198u32, constellation_name: "Sagittarius" },
        ConstellationLine { from_id: 198u32, to_id: 201u32, constellation_name: "Sagittarius" },
        ConstellationLine { from_id: 200u32, to_id: 202u32, constellation_name: "Sagittarius" },
        ConstellationLine { from_id: 161u32, to_id: 162u32, constellation_name: "Capricornus" },
        ConstellationLine { from_id: 162u32, to_id: 160u32, constellation_name: "Capricornus" },
        ConstellationLine { from_id: 158u32, to_id: 157u32, constellation_name: "Aquarius" },
        ConstellationLine { from_id: 157u32, to_id: 159u32, constellation_name: "Aquarius" }
    ]
}

fn push_line_block_5(v: &mut Vec<ConstellationLine>)
    ensures
        final(v)@ == old(v)@ + line_block_5(),
{
    let ghost start = v@;
    v.push(ConstellationLine { from_id: 206, to_id: 13, constellation_name: "Scorpius" });
    v.push(ConstellationLine { from_id: 13, to_id: 211, constellation_name: "Scorpius" });
    v.push(ConstellationLine { from_id: 211, to_id: 207, constellation_name: "Scorpius" });
    v.push(ConstellationLine { from_id: 207, to_id: 210, constellation_name: "Scorpius" });
    v.push(ConstellationLine { from_id: 210, to_id: 205, constellation_name: "Scorpius" });
    v.push(ConstellationLine { from_id: 205, to_id: 204, constellation_name: "Scorpius" });
    v.push(ConstellationLine { from_id: 204, to_id: 209, constellation_name: "Scorpius" });
    v.push(ConstellationLine { from_id: 201, to_id: 200, constellation_name: "Sagittarius" });
    v.push(ConstellationLine { from_id: 200, to_id: 197, constellation_name: "Sagittarius" });
    v.push(ConstellationLine { from_id: 197, to_id: 199, constellation_name: "Sagittarius" });
    v.push(ConstellationLine { from_id: 199, to_id: 198, constellation_name: "Sagittarius" });
    v.push(ConstellationLine { from_id: 198, to_id: 201, constellation_name: "Sagittarius" });
    v.push(ConstellationLine { from_id: 200, to_id: 202, constellation_name: "Sagittarius" });
    v.push(ConstellationLine { from_id: 161, to_id: 162, constellation_name: "Capricornus" });
    v.push(ConstellationLine { from_id: 162, to_id: 160, constellation_name: "Capricornus" });
    v.push(ConstellationLine { from_id: 158, to_id: 157, constellation_name: "Aquarius" });
    v.push(ConstellationLine { from_id: 157, to_id: 159, constellation_name: "Aquarius" });
    assert(v@ =~= start + line_block_5());
}

/// Constellation line connections for the bundled asterisms, in table order.
pub open spec fn constellation_line_table() -> Seq<ConstellationLine> {
    line_block_0() + line_block_1() + line_block_2() + line_block_3() + line_block_4() + line_block_5()
}

/// Constellation line connections for the bundled asterisms: Orion, the
/// Dippers, the northern and southern showpieces and the twelve zodiac
/// constellations (Pisces has no asterism yet).
pub fn constellation_lines() -> (v: Vec<ConstellationLine>)
    ensures
        v@ == constellation_line_table(),
{
    let mut v: Vec<ConstellationLine> = Vec::new();
    push_line_block_0(&mut v);
    push_line_block_1(&mut v);
    push_line_block_2(&mut v);
    push_line_block_3(&mut v);
    push_line_block_4(&mut v);
    push_line_block_5(&mut v);
    assert(v@ =~= constellation_line_table());
    v
}

/// Western tropical-zodiac date range for a constellation name, `None`
/// for constellations that are not one of the twelve signs.
pub open spec fn zodiac_range_of(name: Seq<char>) -> Option<Seq<char>> {
    if name == "Aries"@ {
        Some("Mar 21 – Apr 19"@)
    } else
    if name == "Taurus"@ {
        Some("Apr 20 – May 20"@)
    } else
    if name == "Gemini"@ {
        Some("May 21 – Jun 20"@)
    } else
    if name == "Cancer"@ {
        Some("Jun 21 – Jul 22"@)
    } else
    if name == "Leo"@ {
        Some("Jul 23 – Aug 22"@)
    } else
    if name == "Virgo"@ {
        Some("Aug 23 – Sep 22"@)
    } else
    if name == "Libra"@ {
        Some("Sep 23 – Oct 22"@)
    } else
    if name == "Scorpius"@ {
        Some("Oct 23 – Nov 21"@)
    } else
    if name == "Sagittarius"@ {
        Some("Nov 22 – Dec 21"@)
    } else
    if name == "Capricornus"@ {
        Some("Dec 22 – Jan 19"@)
    } else
    if name == "Aquarius"@ {
        Some("Jan 20 – Feb 18"@)
    } else
    if name == "Pisces"@ {
        Some("Feb 19 – Mar 20"@)
    } else {
        None
    }
}

/// Western tropical-zodiac date range for the 12 standard signs.
///
/// Returns the **calendar** dates the Sun nominally crosses each sign in
/// western astrology — these are *tropical* (anchored to the vernal
/// equinox) and don't match the actual astronomical position of the Sun
/// in the constellation any more, because precession has shifted the
/// constellation boundaries ~30° over the past two millennia. Most
/// pop-culture references to "your sign" use these tropical dates, so
/// they're what we surface in the info card.
///
/// Ophiuchus is intentionally omitted: although the Sun does transit it,
/// it's not one of the 12 tropical signs.
pub fn zodiac_date_range(constellation_name: &str) -> (r: Option<&'static str>)
    ensures
        match r {
            Some(s) => zodiac_range_of(constellation_name@) == Some(s@),
            None => zodiac_range_of(constellation_name@) is None,
        },
{
    if same_text(constellation_name, "Aries") {
        Some("Mar 21 – Apr 19")
    } else
    if same_text(constellation_name, "Taurus") {
        Some("Apr 20 – May 20")
    } else
    if same_text(constellation_name, "Gemini") {
        Some("May 21 – Jun 20")
    } else
    if same_text(constellation_name, "Cancer") {
        Some("Jun 21 – Jul 22")
    } else
    if same_text(constellation_name, "Leo") {
        Some("Jul 23 – Aug 22")
    } else
    if same_text(constellation_name, "Virgo") {
        Some("Aug 23 – Sep 22")
    } else
    if same_text(constellation_name, "Libra") {
        Some("Sep 23 – Oct 22")
    } else
    if same_text(constellation_name, "Scorpius") {
        Some("Oct 23 – Nov 21")
    } else
    if same_text(constellation_name, "Sagittarius") {
        Some("Nov 22 – Dec 21")
    } else
    if same_text(constellation_name, "Capricornus") {
        Some("Dec 22 – Jan 19")
    } else
    if same_text(constellation_name, "Aquarius") {
        Some("Jan 20 – Feb 18")
    } else
    if same_text(constellation_name, "Pisces") {
        Some("Feb 19 – Mar 20")
    } else {
        None
    }
}

/// Names of the Solar System bodies the ephemeris places, in the order it
/// lists them.
pub open spec fn solar_body_name_table() -> Seq<Seq<char>> {
    seq!["Sun"@, "Moon"@, "Mercury"@, "Venus"@, "Mars"@, "Jupiter"@, "Saturn"@]
}

/// Names of the visible Solar System bodies (Sun, Moon and the five
/// naked-eye planets), in ephemeris order.
pub fn solar_system_body_names() -> (v: Vec<&'static str>)
    ensures
        v@.map_values(|s: &'static str| s@) == solar_body_name_table(),
{
    let mut v: Vec<&'static str> = Vec::new();
    v.push("Sun");
    v.push("Moon");
    v.push("Mercury");
    v.push("Venus");
    v.push("Mars");
    v.push("Jupiter");
    v.push("Saturn");
    assert(v@.map_values(|s: &'static str| s@) =~= solar_body_name_table());
    v
}

/// The twelve tropical signs in calendar order, Aries first.
pub open spec fn zodiac_signs() -> Seq<Seq<char>> {
    seq!["Aries"@, "Taurus"@, "Gemini"@, "Cancer"@, "Leo"@, "Virgo"@, "Libra"@, "Scorpius"@, "Sagittarius"@, "Capricornus"@, "Aquarius"@, "Pisces"@]
}

/// First and last day of each sign, as `(month, day, month, day)`, in the
/// order of [`zodiac_signs`].
pub open spec fn zodiac_bounds() -> Seq<(int, int, int, int)> {
    seq![(3, 21, 4, 19), (4, 20, 5, 20), (5, 21, 6, 20), (6, 21, 7, 22), (7, 23, 8, 22), (8, 23, 9, 22), (9, 23, 10, 22), (10, 23, 11, 21), (11, 22, 12, 21), (12, 22, 1, 19), (1, 20, 2, 18), (2, 19, 3, 20)]
}

/// Three-letter English name of month `m` (1 = January).
pub open spec fn month_abbrev(m: int) -> Seq<char> {
    if m == 1 {
        "Jan"@
    } else
    if m == 2 {
        "Feb"@
    } else
    if m == 3 {
        "Mar"@
    } else
    if m == 4 {
        "Apr"@
    } else
    if m == 5 {
        "May"@
    } else
    if m == 6 {
        "Jun"@
    } else
    if m == 7 {
        "Jul"@
    } else
    if m == 8 {
        "Aug"@
    } else
    if m == 9 {
        "Sep"@
    } else
    if m == 10 {
        "Oct"@
    } else
    if m == 11 {
        "Nov"@
    } else
    {
        "Dec"@
    }
}

/// Days in month `m` of a leap year (so February 29 is a calendar day).
pub open spec fn days_in_month(m: int) -> int {
    if m == 2 {
        29
    } else if m == 4 || m == 6 || m == 9 || m == 11 {
        30
    } else {
        31
    }
}

/// Days of a leap year before month `m` begins (366 after December).
pub open spec fn month_start(m: int) -> int {
    if m <= 1 {
        0
    } else
    if m <= 2 {
        31
    } else
    if m <= 3 {
        60
    } else
    if m <= 4 {
        91
    } else
    if m <= 5 {
        121
    } else
    if m <= 6 {
        152
    } else
    if m <= 7 {
        182
    } else
    if m <= 8 {
        213
    } else
    if m <= 9 {
        244
    } else
    if m <= 10 {
        274
    } else
    if m <= 11 {
        305
    } else
    if m <= 12 {
        335
    } else
    {
        366
    }
}

/// Position (1 to 366) of day `d` of month `m` in a leap year.
pub open spec fn day_of_year(m: int, d: int) -> int {
    month_start(m) + d
}

/// Text of a date range: `Mon D – Mon D`.
pub open spec fn range_text(b: (int, int, int, int)) -> Seq<char> {
    month_abbrev(b.0) + " "@ + decimal_text(b.1) + " – "@ + month_abbrev(b.2) + " "@ + decimal_text(b.3)
}

/// Whether the range `b` (which may run past the year's end) holds the
/// day at position `n`.
pub open spec fn range_holds(b: (int, int, int, int), n: int) -> bool {
    let s = day_of_year(b.0, b.1);
    let e = day_of_year(b.2, b.3);
    if s <= e {
        s <= n <= e
    } else {
        n >= s || n <= e
    }
}

/// How many of the first `k` signs hold the day at position `n`.
pub open spec fn signs_holding(n: int, k: int) -> int
    decreases k,
{
    if k <= 0 {
        0
    } else {
        signs_holding(n, k - 1) + if range_holds(zodiac_bounds()[k - 1], n) {
            1int
        } else {
            0int
        }
    }
}

/// The day after `(m, d)`, wrapping from December 31 to January 1.
pub open spec fn next_day(m: int, d: int) -> (int, int) {
    if d < days_in_month(m) {
        (m, d + 1)
    } else if m < 12 {
        (m + 1, 1)
    } else {
        (1, 1)
    }
}

/// The zodiac dates cover the calendar: exactly the twelve signs have a
/// range, each reads `Mon D – Mon D` from its first to its last day, each
/// sign starts on the day after the previous one ends (Aries after
/// Pisces), and every day of the year, February 29 included, lies in
/// exactly one sign.
pub proof fn law_zodiac_covers_the_year()
    ensures
        forall|i: int|
            0 <= i < 12 ==> zodiac_range_of(#[trigger] zodiac_signs()[i]) == Some(
                range_text(zodiac_bounds()[i]),
            ),
        forall|name: Seq<char>| !zodiac_signs().contains(name) ==> (#[trigger] zodiac_range_of(
            name,
        )) is None,
        forall|i: int|
            0 <= i < 12 ==> next_day(zodiac_bounds()[i].2, zodiac_bounds()[i].3) == ({
                let b = #[trigger] zodiac_bounds()[(i + 1) % 12];
                (b.0, b.1)
            }),
        forall|m: int| 1 <= m <= 12 ==> #[trigger] month_start(m + 1) == month_start(m) + days_in_month(m),
        forall|n: int| 1 <= n <= 366 ==> #[trigger] signs_holding(n, 12) == 1,
{
    reveal_strlit("Aries");
    reveal_strlit("Taurus");
    reveal_strlit("Gemini");
    reveal_strlit("Cancer");
    reveal_strlit("Leo");
    reveal_strlit("Virgo");
    reveal_strlit("Libra");
    reveal_strlit("Scorpius");
    reveal_strlit("Sagittarius");
    reveal_strlit("Capricornus");
    reveal_strlit("Aquarius");
    reveal_strlit("Pisces");
    reveal_strlit("Mar 21 – Apr 19");
    reveal_strlit("Apr 20 – May 20");
    reveal_strlit("May 21 – Jun 20");
    reveal_strlit("Jun 21 – Jul 22");
    reveal_strlit("Jul 23 – Aug 22");
    reveal_strlit("Aug 23 – Sep 22");
    reveal_strlit("Sep 23 – Oct 22");
    reveal_strlit("Oct 23 – Nov 21");
    reveal_strlit("Nov 22 – Dec 21");
    reveal_strlit("Dec 22 – Jan 19");
    reveal_strlit("Jan 20 – Feb 18");
    reveal_strlit("Feb 19 – Mar 20");
    reveal_strlit("Jan");
    reveal_strlit("Feb");
    reveal_strlit("Mar");
    reveal_strlit("Apr");
    reveal_strlit("May");
    reveal_strlit("Jun");
    reveal_strlit("Jul");
    reveal_strlit("Aug");
    reveal_strlit("Sep");
    reveal_strlit("Oct");
    reveal_strlit("Nov");
    reveal_strlit("Dec");
    reveal_strlit(" ");
    reveal_strlit(" – ");
    let signs = zodiac_signs();
    let bounds = zodiac_bounds();
    assert("Taurus"@.len() != "Aries"@.len());
    assert("Gemini"@.len() != "Aries"@.len());
    assert("Gemini"@[0] != "Taurus"@[0]);
    assert("Cancer"@.len() != "Aries"@.len());
    assert("Cancer"@[0] != "Taurus"@[0]);
    assert("Cancer"@[0] != "Gemini"@[0]);
    assert("Leo"@.len() != "Aries"@.len());
    assert("Leo"@.len() != "Taurus"@.len());
    assert("Leo"@.len() != "Gemini"@.len());
    assert("Leo"@.len() != "Cancer"@.len());
    assert("Virgo"@[0] != "Aries"@[0]);
    assert("Virgo"@.len() != "Taurus"@.len());
    assert("Virgo"@.len() != "Gemini"@.len());
    assert("Virgo"@.len() != "Cancer"@.len());
    assert("Virgo"@.len() != "Leo"@.len());
    assert("Libra"@[0] != "Aries"@[0]);
    assert("Libra"@.len() != "Taurus"@.len());
    assert("Libra"@.len() != "Gemini"@.len());
    assert("Libra"@.len() != "Cancer"@.len());
    assert("Libra"@.len() != "Leo"@.len());
    assert("Libra"@[0] != "Virgo"@[0]);
    assert("Scorpius"@.len() != "Aries"@.len());
    assert("Scorpius"@.len() != "Taurus"@.len());
    assert("Scorpius"@.len() != "Gemini"@.len());
    assert("Scorpius"@.len() != "Cancer"@.len());
    assert("Scorpius"@.len() != "Leo"@.len());
    assert("Scorpius"@.len() != "Virgo"@.len());
    assert("Scorpius"@.len() != "Libra"@.len());
    assert("Sagittarius"@.len() != "Aries"@.len());
    assert("Sagittarius"@.len() != "Taurus"@.len());
    assert("Sagittarius"@.len() != "Gemini"@.len());
    assert("Sagittarius"@.len() != "Cancer"@.len());
    assert("Sagittarius"@.len() != "Leo"@.len());
    assert("Sagittarius"@.len() != "Virgo"@.len());
    assert("Sagittarius"@.len() != "Libra"@.len());
    assert("Sagittarius"@.len() != "Scorpius"@.len());
    assert("Capricornus"@.len() != "Aries"@.len());
    assert("Capricornus"@.len() != "Taurus"@.len());
    assert("Capricornus"@.len() != "Gemini"@.len());
    assert("Capricornus"@.len() != "Cancer"@.len());
    assert("Capricornus"@.len() != "Leo"@.len());
    assert("Capricornus"@.len() != "Virgo"@.len());
    assert("Capricornus"@.len() != "Libra"@.len());
    assert("Capricornus"@.len() != "Scorpius"@.len());
    assert("Capricornus"@[0] != "Sagittarius"@[0]);
    assert("Aquarius"@.len() != "Aries"@.len());
    assert("Aquarius"@.len() != "Taurus"@.len());
    assert("Aquarius"@.len() != "Gemini"@.len());
    assert("Aquarius"@.len() != "Cancer"@.len());
    assert("Aquarius"@.len() != "Leo"@.len());
    assert("Aquarius"@.len() != "Virgo"@.len());
    assert("Aquarius"@.len() != "Libra"@.len());
    assert("Aquarius"@[0] != "Scorpius"@[0]);
    assert("Aquarius"@.len() != "Sagittarius"@.len());
    assert("Aquarius"@.len() != "Capricornus"@.len());
    assert("Pisces"@.len() != "Aries"@.len());
    assert("Pisces"@[0] != "Taurus"@[0]);
    assert("Pisces"@[0] != "Gemini"@[0]);
    assert("Pisces"@[0] != "Cancer"@[0]);
    assert("Pisces"@.len() != "Leo"@.len());
    assert("Pisces"@.len() != "Virgo"@.len());
    assert("Pisces"@.len() != "Libra"@.len());
    assert("Pisces"@.len() != "Scorpius"@.len());
    assert("Pisces"@.len() != "Sagittarius"@.len());
    assert("Pisces"@.len() != "Capricornus"@.len());
    assert("Pisces"@.len() != "Aquarius"@.len());
    assert(range_text(bounds[0]) =~= "Mar 21 – Apr 19"@);
    assert(range_text(bounds[1]) =~= "Apr 20 – May 20"@);
    assert(range_text(bounds[2]) =~= "May 21 – Jun 20"@);
    assert(range_text(bounds[3]) =~= "Jun 21 – Jul 22"@);
    assert(range_text(bounds[4]) =~= "Jul 23 – Aug 22"@);
    assert(range_text(bounds[5]) =~= "Aug 23 – Sep 22"@);
    assert(range_text(bounds[6]) =~= "Sep 23 – Oct 22"@);
    assert(range_text(bounds[7]) =~= "Oct 23 – Nov 21"@);
    assert(range_text(bounds[8]) =~= "Nov 22 – Dec 21"@);
    assert(range_text(bounds[9]) =~= "Dec 22 – Jan 19"@);
    assert(range_text(bounds[10]) =~= "Jan 20 – Feb 18"@);
    assert(range_text(bounds[11]) =~= "Feb 19 – Mar 20"@);
    assert(zodiac_range_of(signs[0]) == Some(range_text(bounds[0])));
    assert(zodiac_range_of(signs[1]) == Some(range_text(bounds[1])));
    assert(zodiac_range_of(signs[2]) == Some(range_text(bounds[2])));
    assert(zodiac_range_of(signs[3]) == Some(range_text(bounds[3])));
    assert(zodiac_range_of(signs[4]) == Some(range_text(bounds[4])));
    assert(zodiac_range_of(signs[5]) == Some(range_text(bounds[5])));
    assert(zodiac_range_of(signs[6]) == Some(range_text(bounds[6])));
    assert(zodiac_range_of(signs[7]) == Some(range_text(bounds[7])));
    assert(zodiac_range_of(signs[8]) == Some(range_text(bounds[8])));
    assert(zodiac_range_of(signs[9]) == Some(range_text(bounds[9])));
    assert(zodiac_range_of(signs[10]) == Some(range_text(bounds[10])));
    assert(zodiac_range_of(signs[11]) == Some(range_text(bounds[11])));
    assert forall|i: int| 0 <= i < 12 implies zodiac_range_of(#[trigger] signs[i]) == Some(
        range_text(bounds[i]),
    ) by {
        if i == 0 {
            assert("Taurus"@.len() != "Aries"@.len());
    assert("Gemini"@.len() != "Aries"@.len());
    assert("Gemini"@[0] != "Taurus"@[0]);
    assert("Cancer"@.len() != "Aries"@.len());
    assert("Cancer"@[0] != "Taurus"@[0]);
    assert("Cancer"@[0] != "Gemini"@[0]);
    assert("Leo"@.len() != "Aries"@.len());
    assert("Leo"@.len() != "Taurus"@.len());
    assert("Leo"@.len() != "Gemini"@.len());
    assert("Leo"@.len() != "Cancer"@.len());
    assert("Virgo"@[0] != "Aries"@[0]);
    assert("Virgo"@.len() != "Taurus"@.len());
    assert("Virgo"@.len() != "Gemini"@.len());
    assert("Virgo"@.len() != "Cancer"@.len());
    assert("Virgo"@.len() != "Leo"@.len());
    assert("Libra"@[0] != "Aries"@[0]);
    assert("Libra"@.len() != "Taurus"@.len());
    assert("Libra"@.len() != "Gemini"@.len());
    assert("Libra"@.len() != "Cancer"@.len());
    assert("Libra"@.len() != "Leo"@.len());
    assert("Libra"@[0] != "Virgo"@[0]);
    assert("Scorpius"@.len() != "Aries"@.len());
    assert("Scorpius"@.len() != "Taurus"@.len());
    assert("Scorpius"@.len() != "Gemini"@.len());
    assert("Scorpius"@.len() != "Cancer"@.len());
    assert("Scorpius"@.len() != "Leo"@.len());
    assert("Scorpius"@.len() != "Virgo"@.len());
    assert("Scorpius"@.len() != "Libra"@.len());
    assert("Sagittarius"@.len() != "Aries"@.len());
    assert("Sagittarius"@.len() != "Taurus"@.len());
    assert("Sagittarius"@.len() != "Gemini"@.len());
    assert("Sagittarius"@.len() != "Cancer"@.len());
    assert("Sagittarius"@.len() != "Leo"@.len());
    assert("Sagittarius"@.len() != "Virgo"@.len());
    assert("Sagittarius"@.len() != "Libra"@.len());
    assert("Sagittarius"@.len() != "Scorpius"@.len());
    assert("Capricornus"@.len() != "Aries"@.len());
    assert("Capricornus"@.len() != "Taurus"@.len());
    assert("Capricornus"@.len() != "Gemini"@.len());
    assert("Capricornus"@.len() != "Cancer"@.len());
    assert("Capricornus"@.len() != "Leo"@.len());
    assert("Capricornus"@.len() != "Virgo"@.len());
    assert("Capricornus"@.len() != "Libra"@.len());
    assert("Capricornus"@.len() != "Scorpius"@.len());
    assert("Capricornus"@[0] != "Sagittarius"@[0]);
    assert("Aquarius"@.len() != "Aries"@.len());
    assert("Aquarius"@.len() != "Taurus"@.len());
    assert("Aquarius"@.len() != "Gemini"@.len());
    assert("Aquarius"@.len() != "Cancer"@.len());
    assert("Aquarius"@.len() != "Leo"@.len());
    assert("Aquarius"@.len() != "Virgo"@.len());
    assert("Aquarius"@.len() != "Libra"@.len());
    assert("Aquarius"@[0] != "Scorpius"@[0]);
    assert("Aquarius"@.len() != "Sagittarius"@.len());
    assert("Aquarius"@.len() != "Capricornus"@.len());
    assert("Pisces"@.len() != "Aries"@.len());
    assert("Pisces"@[0] != "Taurus"@[0]);
    assert("Pisces"@[0] != "Gemini"@[0]);
    assert("Pisces"@[0] != "Cancer"@[0]);
    assert("Pisces"@.len() != "Leo"@.len());
    assert("Pisces"@.len() != "Virgo"@.len());
    assert("Pisces"@.len() != "Libra"@.len());
    assert("Pisces"@.len() != "Scorpius"@.len());
    assert("Pisces"@.len() != "Sagittarius"@.len());
    assert("Pisces"@.len() != "Capricornus"@.len());
    assert("Pisces"@.len() != "Aquarius"@.len());
    assert(range_text(bounds[0]) =~= "Mar 21 – Apr 19"@);
    assert(range_text(bounds[1]) =~= "Apr 20 – May 20"@);
    assert(range_text(bounds[2]) =~= "May 21 – Jun 20"@);
    assert(range_text(bounds[3]) =~= "Jun 21 – Jul 22"@);
    assert(range_text(bounds[4]) =~= "Jul 23 – Aug 22"@);
    assert(range_text(bounds[5]) =~= "Aug 23 – Sep 22"@);
    assert(range_text(bounds[6]) =~= "Sep 23 – Oct 22"@);
    assert(range_text(bounds[7]) =~= "Oct 23 – Nov 21"@);
    assert(range_text(bounds[8]) =~= "Nov 22 – Dec 21"@);
    assert(range_text(bounds[9]) =~= "Dec 22 – Jan 19"@);
    assert(range_text(bounds[10]) =~= "Jan 20 – Feb 18"@);
    assert(range_text(bounds[11]) =~= "Feb 19 – Mar 20"@);
    assert(zodiac_range_of(signs[0]) == Some(range_text(bounds[0])));
        }
        if i == 1 {
            assert(zodiac_range_of(signs[1]) == Some(range_text(bounds[1])));
        }
        if i == 2 {
            assert(zodiac_range_of(signs[2]) == Some(range_text(bounds[2])));
        }
        if i == 3 {
            assert(zodiac_range_of(signs[3]) == Some(range_text(bounds[3])));
        }
        if i == 4 {
            assert(zodiac_range_of(signs[4]) == Some(range_text(bounds[4])));
        }
        if i == 5 {
            assert(zodiac_range_of(signs[5]) == Some(range_text(bounds[5])));
        }
        if i == 6 {
            assert(zodiac_range_of(signs[6]) == Some(range_text(bounds[6])));
        }
        if i == 7 {
            assert(zodiac_range_of(signs[7]) == Some(range_text(bounds[7])));
        }
        if i == 8 {
            assert(zodiac_range_of(signs[8]) == Some(range_text(bounds[8])));
        }
        if i == 9 {
            assert(zodiac_range_of(signs[9]) == Some(range_text(bounds[9])));
        }
        if i == 10 {
            assert(zodiac_range_of(signs[10]) == Some(range_text(bounds[10])));
        }
        if i == 11 {
            assert(zodiac_range_of(signs[11]) == Some(range_text(bounds[11])));
        }
    }
    assert forall|name: Seq<char>| !signs.contains(name) implies (#[trigger] zodiac_range_of(
        name,
    )) is None by {
        if name == "Aries"@ {
            assert(signs[0] == name);
        }
        if name == "Taurus"@ {
            assert(signs[1] == name);
        }
        if name == "Gemini"@ {
            assert(signs[2] == name);
        }
        if name == "Cancer"@ {
            assert(signs[3] == name);
        }
        if name == "Leo"@ {
            assert(signs[4] == name);
        }
        if name == "Virgo"@ {
            assert(signs[5] == name);
        }
        if name == "Libra"@ {
            assert(signs[6] == name);
        }
        if name == "Scorpius"@ {
            assert(signs[7] == name);
        }
        if name == "Sagittarius"@ {
            assert(signs[8] == name);
        }
        if name == "Capricornus"@ {
            assert(signs[9] == name);
        }
        if name == "Aquarius"@ {
            assert(signs[10] == name);
        }
        if name == "Pisces"@ {
            assert(signs[11] == name);
        }
    }
    assert forall|i: int| 0 <= i < 12 implies next_day(bounds[i].2, bounds[i].3) == ({
        let b = #[trigger] bounds[(i + 1) % 12];
        (b.0, b.1)
    }) by {
        if i == 0 {
            assert((i + 1) % 12 == 1);
        }
        if i == 1 {
            assert((i + 1) % 12 == 2);
        }
        if i == 2 {
            assert((i + 1) % 12 == 3);
        }
        if i == 3 {
            assert((i + 1) % 12 == 4);
        }
        if i == 4 {
            assert((i + 1) % 12 == 5);
        }
        if i == 5 {
            assert((i + 1) % 12 == 6);
        }
        if i == 6 {
            assert((i + 1) % 12 == 7);
        }
        if i == 7 {
            assert((i + 1) % 12 == 8);
        }
        if i == 8 {
            assert((i + 1) % 12 == 9);
        }
        if i == 9 {
            assert((i + 1) % 12 == 10);
        }
        if i == 10 {
            assert((i + 1) % 12 == 11);
        }
        if i == 11 {
            assert((i + 1) % 12 == 0);
        }
    }
    assert forall|n: int| 1 <= n <= 366 implies #[trigger] signs_holding(n, 12) == 1 by {
        reveal_with_fuel(signs_holding, 13);
    }
}

} // verus!
