use crate::text::{
    chars_eq_range, chars_of, count_char, count_char_in, find_char, find_char_in, lemma_find_char_prefix,
    lemma_lines_with_newlines, lemma_no_char_no_count, lemma_with_newlines_push, lines, next_line,
    trim, trim_end, trim_range, trim_start, with_newlines,
};
use vstd::prelude::*;
use vstd::string::*;

verus! {

/// The columns that the results table can show.
#[allow(non_camel_case_types)]
#[derive(Debug, Clone, Copy, PartialEq, Eq, Structural, Hash)]
pub enum FullDataEnum {
    Title,
    DifName,
    MapID,
    Stars,
    BPM,
    Bursts,
    Streams,
    DeathStreams,
    ShortJumps,
    MidJumps,
    Longjumps,
    Doubles,
    Triples,
    SI,
    JI,
    FCDBI,
    PlayableLength,
    CS,
    AR,
    OD,
    HP,
    NM_99,
    DT_99,
    HR_99,
    DT_Stars,
    HR_Stars,
    DT_BPM,
    DT_AR,
    HR_AR,
    HR_CS,
    Quads,
    MapSetID,
    LongestStream,
    Streams100,
    AvgJumpsDistance,
    AvgJumpsSpeed,
    Creator,
    OsuDirect,
    OsuWebLink,
    MD5,
}

/// The name of a column, as headers, configuration files and `Debug` write it.
pub open spec fn column_name(c: FullDataEnum) -> Seq<char> {
    match c {
        FullDataEnum::Title => seq!['T', 'i', 't', 'l', 'e'],
        FullDataEnum::DifName => seq!['D', 'i', 'f', 'N', 'a', 'm', 'e'],
        FullDataEnum::MapID => seq!['M', 'a', 'p', 'I', 'D'],
        FullDataEnum::Stars => seq!['S', 't', 'a', 'r', 's'],
        FullDataEnum::BPM => seq!['B', 'P', 'M'],
        FullDataEnum::Bursts => seq!['B', 'u', 'r', 's', 't', 's'],
        FullDataEnum::Streams => seq!['S', 't', 'r', 'e', 'a', 'm', 's'],
        FullDataEnum::DeathStreams => seq!['D', 'e', 'a', 't', 'h', 'S', 't', 'r', 'e', 'a', 'm', 's'],
        FullDataEnum::ShortJumps => seq!['S', 'h', 'o', 'r', 't', 'J', 'u', 'm', 'p', 's'],
        FullDataEnum::MidJumps => seq!['M', 'i', 'd', 'J', 'u', 'm', 'p', 's'],
        FullDataEnum::Longjumps => seq!['L', 'o', 'n', 'g', 'j', 'u', 'm', 'p', 's'],
        FullDataEnum::Doubles => seq!['D', 'o', 'u', 'b', 'l', 'e', 's'],
        FullDataEnum::Triples => seq!['T', 'r', 'i', 'p', 'l', 'e', 's'],
        FullDataEnum::SI => seq!['S', 'I'],
        FullDataEnum::JI => seq!['J', 'I'],
        FullDataEnum::FCDBI => seq!['F', 'C', 'D', 'B', 'I'],
        FullDataEnum::PlayableLength => seq!['P', 'l', 'a', 'y', 'a', 'b', 'l', 'e', 'L', 'e', 'n', 'g', 't', 'h'],
        FullDataEnum::CS => seq!['C', 'S'],
        FullDataEnum::AR => seq!['A', 'R'],
        FullDataEnum::OD => seq!['O', 'D'],
        FullDataEnum::HP => seq!['H', 'P'],
        FullDataEnum::NM_99 => seq!['N', 'M', '_', '9', '9'],
        FullDataEnum::DT_99 => seq!['D', 'T', '_', '9', '9'],
        FullDataEnum::HR_99 => seq!['H', 'R', '_', '9', '9'],
        FullDataEnum::DT_Stars => seq!['D', 'T', '_', 'S', 't', 'a', 'r', 's'],
        FullDataEnum::HR_Stars => seq!['H', 'R', '_', 'S', 't', 'a', 'r', 's'],
        FullDataEnum::DT_BPM => seq!['D', 'T', '_', 'B', 'P', 'M'],
        FullDataEnum::DT_AR => seq!['D', 'T', '_', 'A', 'R'],
        FullDataEnum::HR_AR => seq!['H', 'R', '_', 'A', 'R'],
        FullDataEnum::HR_CS => seq!['H', 'R', '_', 'C', 'S'],
        FullDataEnum::Quads => seq!['Q', 'u', 'a', 'd', 's'],
        FullDataEnum::MapSetID => seq!['M', 'a', 'p', 'S', 'e', 't', 'I', 'D'],
        FullDataEnum::LongestStream => seq!['L', 'o', 'n', 'g', 'e', 's', 't', 'S', 't', 'r', 'e', 'a', 'm'],
        FullDataEnum::Streams100 => seq!['S', 't', 'r', 'e', 'a', 'm', 's', '1', '0', '0'],
        FullDataEnum::AvgJumpsDistance => seq!['A', 'v', 'g', 'J', 'u', 'm', 'p', 's', 'D', 'i', 's', 't', 'a', 'n', 'c', 'e'],
        FullDataEnum::AvgJumpsSpeed => seq!['A', 'v', 'g', 'J', 'u', 'm', 'p', 's', 'S', 'p', 'e', 'e', 'd'],
        FullDataEnum::Creator => seq!['C', 'r', 'e', 'a', 't', 'o', 'r'],
        FullDataEnum::OsuDirect => seq!['O', 's', 'u', 'D', 'i', 'r', 'e', 'c', 't'],
        FullDataEnum::OsuWebLink => seq!['O', 's', 'u', 'W', 'e', 'b', 'L', 'i', 'n', 'k'],
        FullDataEnum::MD5 => seq!['M', 'D', '5'],
    }
}

/// All columns, in the order in which they are declared.
pub open spec fn all_columns() -> Seq<FullDataEnum> {
    seq![
        FullDataEnum::Title,
        FullDataEnum::DifName,
        FullDataEnum::MapID,
        FullDataEnum::Stars,
        FullDataEnum::BPM,
        FullDataEnum::Bursts,
        FullDataEnum::Streams,
        FullDataEnum::DeathStreams,
        FullDataEnum::ShortJumps,
        FullDataEnum::MidJumps,
        FullDataEnum::Longjumps,
        FullDataEnum::Doubles,
        FullDataEnum::Triples,
        FullDataEnum::SI,
        FullDataEnum::JI,
        FullDataEnum::FCDBI,
        FullDataEnum::PlayableLength,
        FullDataEnum::CS,
        FullDataEnum::AR,
        FullDataEnum::OD,
        FullDataEnum::HP,
        FullDataEnum::NM_99,
        FullDataEnum::DT_99,
        FullDataEnum::HR_99,
        FullDataEnum::DT_Stars,
        FullDataEnum::HR_Stars,
        FullDataEnum::DT_BPM,
        FullDataEnum::DT_AR,
        FullDataEnum::HR_AR,
        FullDataEnum::HR_CS,
        FullDataEnum::Quads,
        FullDataEnum::MapSetID,
        FullDataEnum::LongestStream,
        FullDataEnum::Streams100,
        FullDataEnum::AvgJumpsDistance,
        FullDataEnum::AvgJumpsSpeed,
        FullDataEnum::Creator,
        FullDataEnum::OsuDirect,
        FullDataEnum::OsuWebLink,
        FullDataEnum::MD5,
    ]
}

/// The columns that a configuration file can select: all but `MD5`, which is always added.
pub open spec fn selectable_columns() -> Seq<FullDataEnum> {
    all_columns().drop_last()
}

impl FullDataEnum {
    /// The name of the column.
    pub fn name(&self) -> (r: &'static str)
        ensures
            r@ == column_name(*self),
    {
        match self {
            FullDataEnum::Title => {
                proof {
                    reveal_strlit("Title");
                }
                "Title"
            },
            FullDataEnum::DifName => {
                proof {
                    reveal_strlit("DifName");
                }
                "DifName"
            },
            FullDataEnum::MapID => {
                proof {
                    reveal_strlit("MapID");
                }
                "MapID"
            },
            FullDataEnum::Stars => {
                proof {
                    reveal_strlit("Stars");
                }
                "Stars"
            },
            FullDataEnum::BPM => {
                proof {
                    reveal_strlit("BPM");
                }
                "BPM"
            },
            FullDataEnum::Bursts => {
                proof {
                    reveal_strlit("Bursts");
                }
                "Bursts"
            },
            FullDataEnum::Streams => {
                proof {
                    reveal_strlit("Streams");
                }
                "Streams"
            },
            FullDataEnum::DeathStreams => {
                proof {
                    reveal_strlit("DeathStreams");
                }
                "DeathStreams"
            },
            FullDataEnum::ShortJumps => {
                proof {
                    reveal_strlit("ShortJumps");
                }
                "ShortJumps"
            },
            FullDataEnum::MidJumps => {
                proof {
                    reveal_strlit("MidJumps");
                }
                "MidJumps"
            },
            FullDataEnum::Longjumps => {
                proof {
                    reveal_strlit("Longjumps");
                }
                "Longjumps"
            },
            FullDataEnum::Doubles => {
                proof {
                    reveal_strlit("Doubles");
                }
                "Doubles"
            },
            FullDataEnum::Triples => {
                proof {
                    reveal_strlit("Triples");
                }
                "Triples"
            },
            FullDataEnum::SI => {
                proof {
                    reveal_strlit("SI");
                }
                "SI"
            },
            FullDataEnum::JI => {
                proof {
                    reveal_strlit("JI");
                }
                "JI"
            },
            FullDataEnum::FCDBI => {
                proof {
                    reveal_strlit("FCDBI");
                }
                "FCDBI"
            },
            FullDataEnum::PlayableLength => {
                proof {
                    reveal_strlit("PlayableLength");
                }
                "PlayableLength"
            },
            FullDataEnum::CS => {
                proof {
                    reveal_strlit("CS");
                }
                "CS"
            },
            FullDataEnum::AR => {
                proof {
                    reveal_strlit("AR");
                }
                "AR"
            },
            FullDataEnum::OD => {
                proof {
                    reveal_strlit("OD");
                }
                "OD"
            },
            FullDataEnum::HP => {
                proof {
                    reveal_strlit("HP");
                }
                "HP"
            },
            FullDataEnum::NM_99 => {
                proof {
                    reveal_strlit("NM_99");
                }
                "NM_99"
            },
            FullDataEnum::DT_99 => {
                proof {
                    reveal_strlit("DT_99");
                }
                "DT_99"
            },
            FullDataEnum::HR_99 => {
                proof {
                    reveal_strlit("HR_99");
                }
                "HR_99"
            },
            FullDataEnum::DT_Stars => {
                proof {
                    reveal_strlit("DT_Stars");
                }
                "DT_Stars"
            },
            FullDataEnum::HR_Stars => {
                proof {
                    reveal_strlit("HR_Stars");
                }
                "HR_Stars"
            },
            FullDataEnum::DT_BPM => {
                proof {
                    reveal_strlit("DT_BPM");
                }
                "DT_BPM"
            },
            FullDataEnum::DT_AR => {
                proof {
                    reveal_strlit("DT_AR");
                }
                "DT_AR"
            },
            FullDataEnum::HR_AR => {
                proof {
                    reveal_strlit("HR_AR");
                }
                "HR_AR"
            },
            FullDataEnum::HR_CS => {
                proof {
                    reveal_strlit("HR_CS");
                }
                "HR_CS"
            },
            FullDataEnum::Quads => {
                proof {
                    reveal_strlit("Quads");
                }
                "Quads"
            },
            FullDataEnum::MapSetID => {
                proof {
                    reveal_strlit("MapSetID");
                }
                "MapSetID"
            },
            FullDataEnum::LongestStream => {
                proof {
                    reveal_strlit("LongestStream");
                }
                "LongestStream"
            },
            FullDataEnum::Streams100 => {
                proof {
                    reveal_strlit("Streams100");
                }
                "Streams100"
            },
            FullDataEnum::AvgJumpsDistance => {
                proof {
                    reveal_strlit("AvgJumpsDistance");
                }
                "AvgJumpsDistance"
            },
            FullDataEnum::AvgJumpsSpeed => {
                proof {
                    reveal_strlit("AvgJumpsSpeed");
                }
                "AvgJumpsSpeed"
            },
            FullDataEnum::Creator => {
                proof {
                    reveal_strlit("Creator");
                }
                "Creator"
            },
            FullDataEnum::OsuDirect => {
                proof {
                    reveal_strlit("OsuDirect");
                }
                "OsuDirect"
            },
            FullDataEnum::OsuWebLink => {
                proof {
                    reveal_strlit("OsuWebLink");
                }
                "OsuWebLink"
            },
            FullDataEnum::MD5 => {
                proof {
                    reveal_strlit("MD5");
                }
                "MD5"
            },
        }
    }
}

/// All columns, in the order in which they are declared.
pub fn get_all_enum_values() -> (r: Vec<FullDataEnum>)
    ensures
        r@ == all_columns(),
{
    let mut r: Vec<FullDataEnum> = Vec::new();
    r.push(FullDataEnum::Title);
    r.push(FullDataEnum::DifName);
    r.push(FullDataEnum::MapID);
    r.push(FullDataEnum::Stars);
    r.push(FullDataEnum::BPM);
    r.push(FullDataEnum::Bursts);
    r.push(FullDataEnum::Streams);
    r.push(FullDataEnum::DeathStreams);
    r.push(FullDataEnum::ShortJumps);
    r.push(FullDataEnum::MidJumps);
    r.push(FullDataEnum::Longjumps);
    r.push(FullDataEnum::Doubles);
    r.push(FullDataEnum::Triples);
    r.push(FullDataEnum::SI);
    r.push(FullDataEnum::JI);
    r.push(FullDataEnum::FCDBI);
    r.push(FullDataEnum::PlayableLength);
    r.push(FullDataEnum::CS);
    r.push(FullDataEnum::AR);
    r.push(FullDataEnum::OD);
    r.push(FullDataEnum::HP);
    r.push(FullDataEnum::NM_99);
    r.push(FullDataEnum::DT_99);
    r.push(FullDataEnum::HR_99);
    r.push(FullDataEnum::DT_Stars);
    r.push(FullDataEnum::HR_Stars);
    r.push(FullDataEnum::DT_BPM);
    r.push(FullDataEnum::DT_AR);
    r.push(FullDataEnum::HR_AR);
    r.push(FullDataEnum::HR_CS);
    r.push(FullDataEnum::Quads);
    r.push(FullDataEnum::MapSetID);
    r.push(FullDataEnum::LongestStream);
    r.push(FullDataEnum::Streams100);
    r.push(FullDataEnum::AvgJumpsDistance);
    r.push(FullDataEnum::AvgJumpsSpeed);
    r.push(FullDataEnum::Creator);
    r.push(FullDataEnum::OsuDirect);
    r.push(FullDataEnum::OsuWebLink);
    r.push(FullDataEnum::MD5);
    assert(r@ =~= all_columns());
    r
}


/// The first of `cols` whose name is `s`.
pub open spec fn find_column(s: Seq<char>, cols: Seq<FullDataEnum>) -> Option<FullDataEnum>
    decreases cols.len(),
{
    if cols.len() == 0 {
        None
    } else if column_name(cols[0]) == s {
        Some(cols[0])
    } else {
        find_column(s, cols.drop_first())
    }
}

/// The selectable column named `s`, if any: `MD5` is not selectable.
pub open spec fn column_from_name(s: Seq<char>) -> Option<FullDataEnum> {
    find_column(s, selectable_columns())
}

/// The selectable column named `s[from..to]`, if any.
pub fn column_from_chars(s: &[char], from: usize, to: usize) -> (r: Option<FullDataEnum>)
    requires
        from <= to <= s@.len(),
    ensures
        r == column_from_name(s@.subrange(from as int, to as int)),
{
    let cols = get_all_enum_values();
    let ghost x = s@.subrange(from as int, to as int);
    let ghost sel = selectable_columns();
    assert(sel.subrange(0, sel.len() as int) =~= sel);
    let mut i: usize = 0;
    while i + 1 < cols.len()
        invariant
            cols@ == all_columns(),
            sel == selectable_columns(),
            i <= sel.len(),
            from <= to <= s@.len(),
            x == s@.subrange(from as int, to as int),
            find_column(x, sel) == find_column(x, sel.subrange(i as int, sel.len() as int)),
        decreases cols@.len() - i,
    {
        let c = cols[i];
        let name = chars_of(c.name());
        let ghost rest = sel.subrange(i as int, sel.len() as int);
        assert(rest[0] == c);
        assert(rest.drop_first() =~= sel.subrange(i + 1, sel.len() as int));
        if chars_eq_range(s, from, to, &name) {
            return Some(c);
        }
        i = i + 1;
    }
    None
}

/// The selectable column with the name `s`; `Err(())` for any other text, `"MD5"` among
/// them.
pub fn parse_column(s: &str) -> (r: Result<FullDataEnum, ()>)
    ensures
        r == match column_from_name(s@) {
            Some(c) => Ok::<FullDataEnum, ()>(c),
            None => Err(()),
        },
{
    let cs = chars_of(s);
    assert(cs@.subrange(0, cs@.len() as int) =~= cs@);
    match column_from_chars(&cs, 0, cs.len()) {
        Some(c) => Ok(c),
        None => Err(()),
    }
}

impl core::str::FromStr for FullDataEnum {
    type Err = ();

    fn from_str(s: &str) -> (r: Result<Self, ()>)
        ensures
            r == match column_from_name(s@) {
                Some(c) => Ok::<FullDataEnum, ()>(c),
                None => Err(()),
            },
    {
        parse_column(s)
    }
}


/// A number that tells the column names apart: it combines the length and the first and
/// last characters.
spec fn name_code(s: Seq<char>) -> int {
    if s.len() == 0 {
        0
    } else {
        (s.len() * 200 + (s[0] as int)) * 200 + (s.last() as int)
    }
}

spec fn column_with_code(k: int) -> FullDataEnum {
    if k == 216901 {
        FullDataEnum::Title
    } else if k == 293701 {
        FullDataEnum::DifName
    } else if k == 215468 {
        FullDataEnum::MapID
    } else if k == 216715 {
        FullDataEnum::Stars
    } else if k == 133277 {
        FullDataEnum::BPM
    } else if k == 253315 {
        FullDataEnum::Bursts
    } else if k == 296715 {
        FullDataEnum::Streams
    } else if k == 493715 {
        FullDataEnum::DeathStreams
    } else if k == 416715 {
        FullDataEnum::ShortJumps
    } else if k == 335515 {
        FullDataEnum::MidJumps
    } else if k == 375315 {
        FullDataEnum::Longjumps
    } else if k == 293715 {
        FullDataEnum::Doubles
    } else if k == 296915 {
        FullDataEnum::Triples
    } else if k == 96673 {
        FullDataEnum::SI
    } else if k == 94873 {
        FullDataEnum::JI
    } else if k == 214073 {
        FullDataEnum::FCDBI
    } else if k == 576104 {
        FullDataEnum::PlayableLength
    } else if k == 93483 {
        FullDataEnum::CS
    } else if k == 93082 {
        FullDataEnum::AR
    } else if k == 95868 {
        FullDataEnum::OD
    } else if k == 94480 {
        FullDataEnum::HP
    } else if k == 215657 {
        FullDataEnum::NM_99
    } else if k == 213657 {
        FullDataEnum::DT_99
    } else if k == 214457 {
        FullDataEnum::HR_99
    } else if k == 333715 {
        FullDataEnum::DT_Stars
    } else if k == 334515 {
        FullDataEnum::HR_Stars
    } else if k == 253677 {
        FullDataEnum::DT_BPM
    } else if k == 213682 {
        FullDataEnum::DT_AR
    } else if k == 214482 {
        FullDataEnum::HR_AR
    } else if k == 214483 {
        FullDataEnum::HR_CS
    } else if k == 216315 {
        FullDataEnum::Quads
    } else if k == 335468 {
        FullDataEnum::MapSetID
    } else if k == 535309 {
        FullDataEnum::LongestStream
    } else if k == 416648 {
        FullDataEnum::Streams100
    } else if k == 653101 {
        FullDataEnum::AvgJumpsDistance
    } else if k == 533100 {
        FullDataEnum::AvgJumpsSpeed
    } else if k == 293514 {
        FullDataEnum::Creator
    } else if k == 375916 {
        FullDataEnum::OsuDirect
    } else if k == 415907 {
        FullDataEnum::OsuWebLink
    } else if k == 135453 {
        FullDataEnum::MD5
    } else {
        FullDataEnum::MD5
    }
}

proof fn lemma_code_identifies(c: FullDataEnum)
    ensures
        column_with_code(name_code(column_name(c))) == c,
{
    match c {
        FullDataEnum::Title => {},
        FullDataEnum::DifName => {},
        FullDataEnum::MapID => {},
        FullDataEnum::Stars => {},
        FullDataEnum::BPM => {},
        FullDataEnum::Bursts => {},
        FullDataEnum::Streams => {},
        FullDataEnum::DeathStreams => {},
        FullDataEnum::ShortJumps => {},
        FullDataEnum::MidJumps => {},
        FullDataEnum::Longjumps => {},
        FullDataEnum::Doubles => {},
        FullDataEnum::Triples => {},
        FullDataEnum::SI => {},
        FullDataEnum::JI => {},
        FullDataEnum::FCDBI => {},
        FullDataEnum::PlayableLength => {},
        FullDataEnum::CS => {},
        FullDataEnum::AR => {},
        FullDataEnum::OD => {},
        FullDataEnum::HP => {},
        FullDataEnum::NM_99 => {},
        FullDataEnum::DT_99 => {},
        FullDataEnum::HR_99 => {},
        FullDataEnum::DT_Stars => {},
        FullDataEnum::HR_Stars => {},
        FullDataEnum::DT_BPM => {},
        FullDataEnum::DT_AR => {},
        FullDataEnum::HR_AR => {},
        FullDataEnum::HR_CS => {},
        FullDataEnum::Quads => {},
        FullDataEnum::MapSetID => {},
        FullDataEnum::LongestStream => {},
        FullDataEnum::Streams100 => {},
        FullDataEnum::AvgJumpsDistance => {},
        FullDataEnum::AvgJumpsSpeed => {},
        FullDataEnum::Creator => {},
        FullDataEnum::OsuDirect => {},
        FullDataEnum::OsuWebLink => {},
        FullDataEnum::MD5 => {},
    }
}

/// Different columns have different names.
pub proof fn lemma_column_names_distinct(a: FullDataEnum, b: FullDataEnum)
    ensures
        column_name(a) == column_name(b) ==> a == b,
{
    lemma_code_identifies(a);
    lemma_code_identifies(b);
}

proof fn lemma_find_column(c: FullDataEnum, cols: Seq<FullDataEnum>)
    ensures
        cols.contains(c) ==> find_column(column_name(c), cols) == Some(c),
        !cols.contains(c) ==> find_column(column_name(c), cols) is None,
    decreases cols.len(),
{
    if cols.len() > 0 {
        lemma_column_names_distinct(cols[0], c);
        lemma_find_column(c, cols.drop_first());
        if cols.contains(c) && cols[0] != c {
            let k = choose|k: int| 0 <= k < cols.len() && cols[k] == c;
            assert(cols.drop_first()[k - 1] == c);
        }
        if !cols.contains(c) {
            assert(cols[0] != c);
            assert forall|k: int| 0 <= k < cols.drop_first().len() implies cols.drop_first()[k] != c by {
                assert(cols.drop_first()[k] == cols[k + 1]);
            }
        }
    }
}

/// A column name read back gives the column, for every column that a configuration file
/// can select; `MD5` read back gives none.
pub proof fn law_column_name_roundtrip(c: FullDataEnum)
    ensures
        c != FullDataEnum::MD5 ==> column_from_name(column_name(c)) == Some(c),
        c == FullDataEnum::MD5 ==> column_from_name(column_name(c)) is None,
{
    lemma_all_columns_complete(c);
    lemma_find_column(c, selectable_columns());
}

/// Every column occurs in `all_columns`, and all but `MD5` in `selectable_columns`.
pub proof fn lemma_all_columns_complete(c: FullDataEnum)
    ensures
        all_columns().contains(c),
        selectable_columns().contains(c) <==> c != FullDataEnum::MD5,
{
    let all = all_columns();
    let sel = selectable_columns();
    assert(sel.len() == 39);
    let k = column_index(c);
    assert(all[k] == c);
    if c != FullDataEnum::MD5 {
        assert(sel[k] == c);
    } else {
        assert forall|i: int| 0 <= i < sel.len() implies sel[i] != c by {
            assert(sel[i] == all[i]);
        }
    }
}

/// The position of `c` in `all_columns`.
pub open spec fn column_index(c: FullDataEnum) -> int {
    match c {
        FullDataEnum::Title => 0,
        FullDataEnum::DifName => 1,
        FullDataEnum::MapID => 2,
        FullDataEnum::Stars => 3,
        FullDataEnum::BPM => 4,
        FullDataEnum::Bursts => 5,
        FullDataEnum::Streams => 6,
        FullDataEnum::DeathStreams => 7,
        FullDataEnum::ShortJumps => 8,
        FullDataEnum::MidJumps => 9,
        FullDataEnum::Longjumps => 10,
        FullDataEnum::Doubles => 11,
        FullDataEnum::Triples => 12,
        FullDataEnum::SI => 13,
        FullDataEnum::JI => 14,
        FullDataEnum::FCDBI => 15,
        FullDataEnum::PlayableLength => 16,
        FullDataEnum::CS => 17,
        FullDataEnum::AR => 18,
        FullDataEnum::OD => 19,
        FullDataEnum::HP => 20,
        FullDataEnum::NM_99 => 21,
        FullDataEnum::DT_99 => 22,
        FullDataEnum::HR_99 => 23,
        FullDataEnum::DT_Stars => 24,
        FullDataEnum::HR_Stars => 25,
        FullDataEnum::DT_BPM => 26,
        FullDataEnum::DT_AR => 27,
        FullDataEnum::HR_AR => 28,
        FullDataEnum::HR_CS => 29,
        FullDataEnum::Quads => 30,
        FullDataEnum::MapSetID => 31,
        FullDataEnum::LongestStream => 32,
        FullDataEnum::Streams100 => 33,
        FullDataEnum::AvgJumpsDistance => 34,
        FullDataEnum::AvgJumpsSpeed => 35,
        FullDataEnum::Creator => 36,
        FullDataEnum::OsuDirect => 37,
        FullDataEnum::OsuWebLink => 38,
        FullDataEnum::MD5 => 39,
    }
}

/// The column that one line of a columns configuration file selects, if any: a line
/// that does not start with `/`, holds exactly one `=`, and reads `1` after it (white
/// space around it aside) selects the column named before the `=` (white space around
/// the name aside).
pub open spec fn column_of_line(line: Seq<char>) -> Option<FullDataEnum> {
    if line.len() > 0 && line[0] == '/' {
        None
    } else if count_char(line, '=') != 1 {
        None
    } else {
        let k = find_char(line, '=');
        if trim(line.subrange(k + 1int, line.len() as int)) == seq!['1'] {
            column_from_name(trim(line.subrange(0, k as int)))
        } else {
            None
        }
    }
}

/// The column that a line selects, as a sequence of zero or one column.
pub open spec fn selected_by(line: Seq<char>) -> Seq<FullDataEnum> {
    match column_of_line(line) {
        Some(c) => seq![c],
        None => seq![],
    }
}

/// The columns that the lines select, in order.
pub open spec fn columns_of_lines(ls: Seq<Seq<char>>) -> Seq<FullDataEnum>
    decreases ls.len(),
{
    if ls.len() == 0 {
        seq![]
    } else {
        selected_by(ls[0]) + columns_of_lines(ls.drop_first())
    }
}

/// The columns that a columns configuration file shows: those its lines select, in
/// order, and `MD5` last.
pub open spec fn columns_config(text: Seq<char>) -> Seq<FullDataEnum> {
    columns_of_lines(lines(text)).push(FullDataEnum::MD5)
}

/// The column that the line `s[ls..le]` selects, if any.
fn column_of_line_range(s: &[char], ls: usize, le: usize) -> (r: Option<FullDataEnum>)
    requires
        ls <= le <= s@.len(),
    ensures
        r == column_of_line(s@.subrange(ls as int, le as int)),
{
    let ghost line = s@.subrange(ls as int, le as int);
    if le > ls && s[ls] == '/' {
        assert(line[0] == s@[ls as int]);
        return None;
    }
    if count_char_in(s, ls, le, '=') != 1 {
        return None;
    }
    let k = find_char_in(s, ls, le, '=');
    proof {
        crate::text::lemma_find_char_bound(line, '=');
        if k == le {
            lemma_no_char_no_count(line, '=');
        }
    }
    assert(line.subrange(k - ls + 1, line.len() as int) =~= s@.subrange(k + 1, le as int));
    assert(line.subrange(0, k - ls) =~= s@.subrange(ls as int, k as int));
    let (a, b) = trim_range(s, k + 1, le);
    if b - a == 1 && s[a] == '1' {
        assert(s@.subrange(a as int, b as int) =~= seq!['1']);
        let (c, d) = trim_range(s, ls, k);
        column_from_chars(s, c, d)
    } else {
        assert(s@.subrange(a as int, b as int) != seq!['1']) by {
            let one: Seq<char> = seq!['1'];
            assert(one.len() == 1 && one[0] == '1');
            if b - a == 1 {
                assert(s@.subrange(a as int, b as int)[0] == s@[a as int]);
            }
        }
        None
    }
}

/// Reads a columns configuration file: the columns that its lines select, in order, and
/// `MD5` last.
pub fn parse_columns_config(contents: &str) -> (r: Vec<FullDataEnum>)
    ensures
        r@ == columns_config(contents@),
{
    let s = chars_of(contents);
    let n = s.len();
    let mut out: Vec<FullDataEnum> = Vec::new();
    let mut pos: usize = 0;
    assert(s@.subrange(0, n as int) =~= s@);
    while pos < n
        invariant
            n == s@.len(),
            s@ == contents@,
            pos <= n,
            out@ + columns_of_lines(lines(s@.subrange(pos as int, n as int))) == columns_of_lines(
                lines(s@),
            ),
        decreases n - pos,
    {
        let (ls, le, nx) = next_line(&s, pos);
        let ghost line = s@.subrange(ls as int, le as int);
        let ghost rest = lines(s@.subrange(nx as int, n as int));
        let ghost all = seq![line] + rest;
        assert(all[0] == line);
        assert(all.drop_first() =~= rest);
        match column_of_line_range(&s, ls, le) {
            Some(c) => {
                assert(out@.push(c) + columns_of_lines(rest) =~= out@ + (seq![c] + columns_of_lines(
                    rest,
                )));
                out.push(c);
            },
            None => {
                assert(Seq::<FullDataEnum>::empty() + columns_of_lines(rest) =~= columns_of_lines(
                    rest,
                ));
            },
        }
        pos = nx;
    }
    assert(s@.subrange(n as int, n as int) =~= Seq::<char>::empty());
    assert(lines(s@.subrange(n as int, n as int)) =~= Seq::<Seq<char>>::empty());
    assert(out@ + Seq::<FullDataEnum>::empty() =~= out@);
    out.push(FullDataEnum::MD5);
    out
}

/// The characters that column names are made of: ASCII letters, digits and `_`.
pub open spec fn is_name_char(c: char) -> bool {
    ||| 'A' <= c <= 'Z'
    ||| 'a' <= c <= 'z'
    ||| '0' <= c <= '9'
    ||| c == '_'
}

/// Column names are non-empty and made of name characters only.
pub proof fn lemma_name_chars(c: FullDataEnum)
    ensures
        column_name(c).len() > 0,
        forall|i: int|
            0 <= i < column_name(c).len() ==> is_name_char(#[trigger] column_name(c)[i]),
{
    match c {
        FullDataEnum::Title => {
            let n = column_name(c);
            assert forall|i: int| 0 <= i < n.len() implies is_name_char(#[trigger] n[i]) by {
                if i == 0 {} else if i == 1 {} else if i == 2 {} else if i == 3 {} else if i == 4 {}
            }
        },
        FullDataEnum::DifName => {
            let n = column_name(c);
            assert forall|i: int| 0 <= i < n.len() implies is_name_char(#[trigger] n[i]) by {
                if i == 0 {} else if i == 1 {} else if i == 2 {} else if i == 3 {} else if i == 4 {} else if i == 5 {} else if i == 6 {}
            }
        },
        FullDataEnum::MapID => {
            let n = column_name(c);
            assert forall|i: int| 0 <= i < n.len() implies is_name_char(#[trigger] n[i]) by {
                if i == 0 {} else if i == 1 {} else if i == 2 {} else if i == 3 {} else if i == 4 {}
            }
        },
        FullDataEnum::Stars => {
            let n = column_name(c);
            assert forall|i: int| 0 <= i < n.len() implies is_name_char(#[trigger] n[i]) by {
                if i == 0 {} else if i == 1 {} else if i == 2 {} else if i == 3 {} else if i == 4 {}
            }
        },
        FullDataEnum::BPM => {
            let n = column_name(c);
            assert forall|i: int| 0 <= i < n.len() implies is_name_char(#[trigger] n[i]) by {
                if i == 0 {} else if i == 1 {} else if i == 2 {}
            }
        },
        FullDataEnum::Bursts => {
            let n = column_name(c);
            assert forall|i: int| 0 <= i < n.len() implies is_name_char(#[trigger] n[i]) by {
                if i == 0 {} else if i == 1 {} else if i == 2 {} else if i == 3 {} else if i == 4 {} else if i == 5 {}
            }
        },
        FullDataEnum::Streams => {
            let n = column_name(c);
            assert forall|i: int| 0 <= i < n.len() implies is_name_char(#[trigger] n[i]) by {
                if i == 0 {} else if i == 1 {} else if i == 2 {} else if i == 3 {} else if i == 4 {} else if i == 5 {} else if i == 6 {}
            }
        },
        FullDataEnum::DeathStreams => {
            let n = column_name(c);
            assert forall|i: int| 0 <= i < n.len() implies is_name_char(#[trigger] n[i]) by {
                if i == 0 {} else if i == 1 {} else if i == 2 {} else if i == 3 {} else if i == 4 {} else if i == 5 {} else if i == 6 {} else if i == 7 {} else if i == 8 {} else if i == 9 {} else if i == 10 {} else if i == 11 {}
            }
        },
        FullDataEnum::ShortJumps => {
            let n = column_name(c);
            assert forall|i: int| 0 <= i < n.len() implies is_name_char(#[trigger] n[i]) by {
                if i == 0 {} else if i == 1 {} else if i == 2 {} else if i == 3 {} else if i == 4 {} else if i == 5 {} else if i == 6 {} else if i == 7 {} else if i == 8 {} else if i == 9 {}
            }
        },
        FullDataEnum::MidJumps => {
            let n = column_name(c);
            assert forall|i: int| 0 <= i < n.len() implies is_name_char(#[trigger] n[i]) by {
                if i == 0 {} else if i == 1 {} else if i == 2 {} else if i == 3 {} else if i == 4 {} else if i == 5 {} else if i == 6 {} else if i == 7 {}
            }
        },
        FullDataEnum::Longjumps => {
            let n = column_name(c);
            assert forall|i: int| 0 <= i < n.len() implies is_name_char(#[trigger] n[i]) by {
                if i == 0 {} else if i == 1 {} else if i == 2 {} else if i == 3 {} else if i == 4 {} else if i == 5 {} else if i == 6 {} else if i == 7 {} else if i == 8 {}
            }
        },
        FullDataEnum::Doubles => {
            let n = column_name(c);
            assert forall|i: int| 0 <= i < n.len() implies is_name_char(#[trigger] n[i]) by {
                if i == 0 {} else if i == 1 {} else if i == 2 {} else if i == 3 {} else if i == 4 {} else if i == 5 {} else if i == 6 {}
            }
        },
        FullDataEnum::Triples => {
            let n = column_name(c);
            assert forall|i: int| 0 <= i < n.len() implies is_name_char(#[trigger] n[i]) by {
                if i == 0 {} else if i == 1 {} else if i == 2 {} else if i == 3 {} else if i == 4 {} else if i == 5 {} else if i == 6 {}
            }
        },
        FullDataEnum::SI => {
            let n = column_name(c);
            assert forall|i: int| 0 <= i < n.len() implies is_name_char(#[trigger] n[i]) by {
                if i == 0 {} else if i == 1 {}
            }
        },
        FullDataEnum::JI => {
            let n = column_name(c);
            assert forall|i: int| 0 <= i < n.len() implies is_name_char(#[trigger] n[i]) by {
                if i == 0 {} else if i == 1 {}
            }
        },
        FullDataEnum::FCDBI => {
            let n = column_name(c);
            assert forall|i: int| 0 <= i < n.len() implies is_name_char(#[trigger] n[i]) by {
                if i == 0 {} else if i == 1 {} else if i == 2 {} else if i == 3 {} else if i == 4 {}
            }
        },
        FullDataEnum::PlayableLength => {
            let n = column_name(c);
            assert forall|i: int| 0 <= i < n.len() implies is_name_char(#[trigger] n[i]) by {
                if i == 0 {} else if i == 1 {} else if i == 2 {} else if i == 3 {} else if i == 4 {} else if i == 5 {} else if i == 6 {} else if i == 7 {} else if i == 8 {} else if i == 9 {} else if i == 10 {} else if i == 11 {} else if i == 12 {} else if i == 13 {}
            }
        },
        FullDataEnum::CS => {
            let n = column_name(c);
            assert forall|i: int| 0 <= i < n.len() implies is_name_char(#[trigger] n[i]) by {
                if i == 0 {} else if i == 1 {}
            }
        },
        FullDataEnum::AR => {
            let n = column_name(c);
            assert forall|i: int| 0 <= i < n.len() implies is_name_char(#[trigger] n[i]) by {
                if i == 0 {} else if i == 1 {}
            }
        },
        FullDataEnum::OD => {
            let n = column_name(c);
            assert forall|i: int| 0 <= i < n.len() implies is_name_char(#[trigger] n[i]) by {
                if i == 0 {} else if i == 1 {}
            }
        },
        FullDataEnum::HP => {
            let n = column_name(c);
            assert forall|i: int| 0 <= i < n.len() implies is_name_char(#[trigger] n[i]) by {
                if i == 0 {} else if i == 1 {}
            }
        },
        FullDataEnum::NM_99 => {
            let n = column_name(c);
            assert forall|i: int| 0 <= i < n.len() implies is_name_char(#[trigger] n[i]) by {
                if i == 0 {} else if i == 1 {} else if i == 2 {} else if i == 3 {} else if i == 4 {}
            }
        },
        FullDataEnum::DT_99 => {
            let n = column_name(c);
            assert forall|i: int| 0 <= i < n.len() implies is_name_char(#[trigger] n[i]) by {
                if i == 0 {} else if i == 1 {} else if i == 2 {} else if i == 3 {} else if i == 4 {}
            }
        },
        FullDataEnum::HR_99 => {
            let n = column_name(c);
            assert forall|i: int| 0 <= i < n.len() implies is_name_char(#[trigger] n[i]) by {
                if i == 0 {} else if i == 1 {} else if i == 2 {} else if i == 3 {} else if i == 4 {}
            }
        },
        FullDataEnum::DT_Stars => {
            let n = column_name(c);
            assert forall|i: int| 0 <= i < n.len() implies is_name_char(#[trigger] n[i]) by {
                if i == 0 {} else if i == 1 {} else if i == 2 {} else if i == 3 {} else if i == 4 {} else if i == 5 {} else if i == 6 {} else if i == 7 {}
            }
        },
        FullDataEnum::HR_Stars => {
            let n = column_name(c);
            assert forall|i: int| 0 <= i < n.len() implies is_name_char(#[trigger] n[i]) by {
                if i == 0 {} else if i == 1 {} else if i == 2 {} else if i == 3 {} else if i == 4 {} else if i == 5 {} else if i == 6 {} else if i == 7 {}
            }
        },
        FullDataEnum::DT_BPM => {
            let n = column_name(c);
            assert forall|i: int| 0 <= i < n.len() implies is_name_char(#[trigger] n[i]) by {
                if i == 0 {} else if i == 1 {} else if i == 2 {} else if i == 3 {} else if i == 4 {} else if i == 5 {}
            }
        },
        FullDataEnum::DT_AR => {
            let n = column_name(c);
            assert forall|i: int| 0 <= i < n.len() implies is_name_char(#[trigger] n[i]) by {
                if i == 0 {} else if i == 1 {} else if i == 2 {} else if i == 3 {} else if i == 4 {}
            }
        },
        FullDataEnum::HR_AR => {
            let n = column_name(c);
            assert forall|i: int| 0 <= i < n.len() implies is_name_char(#[trigger] n[i]) by {
                if i == 0 {} else if i == 1 {} else if i == 2 {} else if i == 3 {} else if i == 4 {}
            }
        },
        FullDataEnum::HR_CS => {
            let n = column_name(c);
            assert forall|i: int| 0 <= i < n.len() implies is_name_char(#[trigger] n[i]) by {
                if i == 0 {} else if i == 1 {} else if i == 2 {} else if i == 3 {} else if i == 4 {}
            }
        },
        FullDataEnum::Quads => {
            let n = column_name(c);
            assert forall|i: int| 0 <= i < n.len() implies is_name_char(#[trigger] n[i]) by {
                if i == 0 {} else if i == 1 {} else if i == 2 {} else if i == 3 {} else if i == 4 {}
            }
        },
        FullDataEnum::MapSetID => {
            let n = column_name(c);
            assert forall|i: int| 0 <= i < n.len() implies is_name_char(#[trigger] n[i]) by {
                if i == 0 {} else if i == 1 {} else if i == 2 {} else if i == 3 {} else if i == 4 {} else if i == 5 {} else if i == 6 {} else if i == 7 {}
            }
        },
        FullDataEnum::LongestStream => {
            let n = column_name(c);
            assert forall|i: int| 0 <= i < n.len() implies is_name_char(#[trigger] n[i]) by {
                if i == 0 {} else if i == 1 {} else if i == 2 {} else if i == 3 {} else if i == 4 {} else if i == 5 {} else if i == 6 {} else if i == 7 {} else if i == 8 {} else if i == 9 {} else if i == 10 {} else if i == 11 {} else if i == 12 {}
            }
        },
        FullDataEnum::Streams100 => {
            let n = column_name(c);
            assert forall|i: int| 0 <= i < n.len() implies is_name_char(#[trigger] n[i]) by {
                if i == 0 {} else if i == 1 {} else if i == 2 {} else if i == 3 {} else if i == 4 {} else if i == 5 {} else if i == 6 {} else if i == 7 {} else if i == 8 {} else if i == 9 {}
            }
        },
        FullDataEnum::AvgJumpsDistance => {
            let n = column_name(c);
            assert forall|i: int| 0 <= i < n.len() implies is_name_char(#[trigger] n[i]) by {
                if i == 0 {} else if i == 1 {} else if i == 2 {} else if i == 3 {} else if i == 4 {} else if i == 5 {} else if i == 6 {} else if i == 7 {} else if i == 8 {} else if i == 9 {} else if i == 10 {} else if i == 11 {} else if i == 12 {} else if i == 13 {} else if i == 14 {} else if i == 15 {}
            }
        },
        FullDataEnum::AvgJumpsSpeed => {
            let n = column_name(c);
            assert forall|i: int| 0 <= i < n.len() implies is_name_char(#[trigger] n[i]) by {
                if i == 0 {} else if i == 1 {} else if i == 2 {} else if i == 3 {} else if i == 4 {} else if i == 5 {} else if i == 6 {} else if i == 7 {} else if i == 8 {} else if i == 9 {} else if i == 10 {} else if i == 11 {} else if i == 12 {}
            }
        },
        FullDataEnum::Creator => {
            let n = column_name(c);
            assert forall|i: int| 0 <= i < n.len() implies is_name_char(#[trigger] n[i]) by {
                if i == 0 {} else if i == 1 {} else if i == 2 {} else if i == 3 {} else if i == 4 {} else if i == 5 {} else if i == 6 {}
            }
        },
        FullDataEnum::OsuDirect => {
            let n = column_name(c);
            assert forall|i: int| 0 <= i < n.len() implies is_name_char(#[trigger] n[i]) by {
                if i == 0 {} else if i == 1 {} else if i == 2 {} else if i == 3 {} else if i == 4 {} else if i == 5 {} else if i == 6 {} else if i == 7 {} else if i == 8 {}
            }
        },
        FullDataEnum::OsuWebLink => {
            let n = column_name(c);
            assert forall|i: int| 0 <= i < n.len() implies is_name_char(#[trigger] n[i]) by {
                if i == 0 {} else if i == 1 {} else if i == 2 {} else if i == 3 {} else if i == 4 {} else if i == 5 {} else if i == 6 {} else if i == 7 {} else if i == 8 {} else if i == 9 {}
            }
        },
        FullDataEnum::MD5 => {
            let n = column_name(c);
            assert forall|i: int| 0 <= i < n.len() implies is_name_char(#[trigger] n[i]) by {
                if i == 0 {} else if i == 1 {} else if i == 2 {}
            }
        },
    }
}

/// The names of `cols` separated by `", "`, as `Debug` lists them.
pub open spec fn joined_names(cols: Seq<FullDataEnum>) -> Seq<char>
    decreases cols.len(),
{
    if cols.len() == 0 {
        seq![]
    } else if cols.len() == 1 {
        column_name(cols[0])
    } else {
        joined_names(cols.drop_last()) + seq![',', ' '] + column_name(cols.last())
    }
}

/// The line `NAME=1` that selects column `c`.
pub open spec fn selection_line(c: FullDataEnum) -> Seq<char> {
    column_name(c) + seq!['=', '1']
}

/// First explanatory line of the columns configuration file.
pub open spec fn columns_comment_1() -> Seq<char> {
    "//In this file you can select which columns to be displayed in results.csv"@
}

/// Second explanatory line of the columns configuration file.
pub open spec fn columns_comment_2() -> Seq<char> {
    "//You can swap thier order, to disable one simply replace the 1 with 0"@
}

/// Third explanatory line of the columns configuration file.
pub open spec fn columns_comment_3() -> Seq<char> {
    "//MD5 is always included for unique identifier so already computed maps wont be computed again."@
}

/// The line that lists the default columns.
pub open spec fn columns_defaults_line() -> Seq<char> {
    "Defaults: ["@ + joined_names(all_columns()) + seq![']']
}

/// The lines of the columns configuration file that is written when there is none: three
/// comments, the list of defaults, and a line selecting each selectable column in order.
pub open spec fn default_columns_lines() -> Seq<Seq<char>> {
    seq![columns_comment_1(), columns_comment_2(), columns_comment_3(), columns_defaults_line()]
        + selectable_columns().map_values(|c: FullDataEnum| selection_line(c))
}

/// The text of the columns configuration file that is written when there is none.
pub open spec fn default_columns_text() -> Seq<char> {
    with_newlines(default_columns_lines())
}

/// Writes the columns configuration file that is used when there is none.
pub fn default_columns_config_text() -> (r: String)
    ensures
        r@ == default_columns_text(),
{
    let ghost lines_so_far: Seq<Seq<char>> = seq![];
    let mut out = String::new();
    proof {
        reveal_strlit("\n");
    }
    out.append("//In this file you can select which columns to be displayed in results.csv");
    out.append("\n");
    out.append("//You can swap thier order, to disable one simply replace the 1 with 0");
    out.append("\n");
    out.append(
        "//MD5 is always included for unique identifier so already computed maps wont be computed again.",
    );
    out.append("\n");
    proof {
        let l = seq![columns_comment_1(), columns_comment_2(), columns_comment_3()];
        lemma_with_newlines_push(seq![], columns_comment_1());
        lemma_with_newlines_push(seq![columns_comment_1()], columns_comment_2());
        lemma_with_newlines_push(seq![columns_comment_1(), columns_comment_2()], columns_comment_3());
        assert(seq![columns_comment_1()] =~= Seq::<Seq<char>>::empty().push(columns_comment_1()));
        assert(seq![columns_comment_1(), columns_comment_2()] =~= seq![columns_comment_1()].push(
            columns_comment_2(),
        ));
        assert(l =~= seq![columns_comment_1(), columns_comment_2()].push(columns_comment_3()));
        assert(with_newlines(Seq::<Seq<char>>::empty()) =~= Seq::<char>::empty());
        assert(out@ =~= with_newlines(l));
        lines_so_far = l;
    }
    let cols = get_all_enum_values();
    let ghost start = out@;
    out.append("Defaults: [");
    proof {
        reveal_strlit(", ");
        assert(", "@ =~= seq![',', ' ']);
    }
    let mut i: usize = 0;
    while i < cols.len()
        invariant
            cols@ == all_columns(),
            i <= cols@.len(),
            out@ == start + "Defaults: ["@ + joined_names(cols@.take(i as int)),
        decreases cols@.len() - i,
    {
        let ghost before = cols@.take(i as int);
        assert(cols@.take(i + 1).drop_last() =~= before);
        assert(cols@.take(i + 1).last() == cols@[i as int]);
        proof {
            reveal_strlit(", ");
        }
        if i > 0 {
            out.append(", ");
            assert(cols@.take(i + 1).len() > 1);
        } else {
            assert(cols@.take(1) =~= seq![cols@[0]]);
            assert(before =~= Seq::<FullDataEnum>::empty());
        }
        out.append(cols[i].name());
        assert(out@ =~= start + "Defaults: ["@ + joined_names(cols@.take(i + 1)));
        i = i + 1;
    }
    proof {
        reveal_strlit("]");
    }
    out.append("]");
    out.append("\n");
    proof {
        assert(cols@.take(cols@.len() as int) =~= cols@);
        lemma_with_newlines_push(lines_so_far, columns_defaults_line());
        assert(out@ =~= with_newlines(lines_so_far) + columns_defaults_line() + seq!['\n']);
        lines_so_far = lines_so_far.push(columns_defaults_line());
    }
    let ghost head = lines_so_far;
    let ghost sel = selectable_columns();
    proof {
        reveal_strlit("=1\n");
        assert("=1\n"@ =~= seq!['=', '1', '\n']);
    }
    let mut j: usize = 0;
    while j + 1 < cols.len()
        invariant
            cols@ == all_columns(),
            sel == selectable_columns(),
            j <= sel.len(),
            sel.len() + 1 == cols@.len(),
            out@ == with_newlines(
                head + sel.take(j as int).map_values(|c: FullDataEnum| selection_line(c)),
            ),
        decreases cols@.len() - j,
    {
        let ghost before = head + sel.take(j as int).map_values(|c: FullDataEnum| selection_line(c));
        assert(sel[j as int] == cols@[j as int]);
        assert(head + sel.take(j + 1).map_values(|c: FullDataEnum| selection_line(c)) =~= before.push(
            selection_line(sel[j as int]),
        ));
        proof {
            lemma_with_newlines_push(before, selection_line(sel[j as int]));
        }
        proof {
            reveal_strlit("=1\n");
        }
        out.append(cols[j].name());
        out.append("=1\n");
        assert(selection_line(sel[j as int]) + seq!['\n'] =~= column_name(cols@[j as int]) + "=1\n"@);
        assert(out@ =~= with_newlines(before) + selection_line(sel[j as int]) + seq!['\n']);
        j = j + 1;
    }
    assert(sel.take(sel.len() as int) =~= sel);
    assert(head =~= seq![
        columns_comment_1(),
        columns_comment_2(),
        columns_comment_3(),
        columns_defaults_line(),
    ]);
    assert(head + sel.map_values(|c: FullDataEnum| selection_line(c)) =~= default_columns_lines());
    out
}

proof fn lemma_comments_shape()
    ensures
        columns_comment_1()[0] == '/',
        columns_comment_2()[0] == '/',
        columns_comment_3()[0] == '/',
        forall|i: int| 0 <= i < columns_comment_1().len() ==> #[trigger] columns_comment_1()[i] != '\n',
        forall|i: int| 0 <= i < columns_comment_2().len() ==> #[trigger] columns_comment_2()[i] != '\n',
        forall|i: int| 0 <= i < columns_comment_3().len() ==> #[trigger] columns_comment_3()[i] != '\n',
        columns_comment_1().last() != '\r',
        columns_comment_2().last() != '\r',
        columns_comment_3().last() != '\r',
{
    reveal_strlit("//In this file you can select which columns to be displayed in results.csv");
    reveal_strlit("//You can swap thier order, to disable one simply replace the 1 with 0");
    reveal_strlit(
        "//MD5 is always included for unique identifier so already computed maps wont be computed again.",
    );
}

proof fn lemma_columns_of_lines_concat(x: Seq<Seq<char>>, y: Seq<Seq<char>>)
    ensures
        columns_of_lines(x + y) == columns_of_lines(x) + columns_of_lines(y),
    decreases x.len(),
{
    if x.len() == 0 {
        assert(x + y =~= y);
        assert(Seq::<FullDataEnum>::empty() + columns_of_lines(y) =~= columns_of_lines(y));
    } else {
        assert((x + y).drop_first() =~= x.drop_first() + y);
        assert((x + y)[0] == x[0]);
        lemma_columns_of_lines_concat(x.drop_first(), y);
        assert(selected_by(x[0]) + (columns_of_lines(x.drop_first()) + columns_of_lines(y))
            =~= (selected_by(x[0]) + columns_of_lines(x.drop_first())) + columns_of_lines(y));
    }
}

proof fn lemma_joined_names_chars(cols: Seq<FullDataEnum>)
    ensures
        forall|i: int|
            0 <= i < joined_names(cols).len() ==> {
                let ch = #[trigger] joined_names(cols)[i];
                is_name_char(ch) || ch == ',' || ch == ' '
            },
    decreases cols.len(),
{
    if cols.len() == 1 {
        lemma_name_chars(cols[0]);
    } else if cols.len() > 1 {
        lemma_joined_names_chars(cols.drop_last());
        lemma_name_chars(cols.last());
        let a = joined_names(cols.drop_last());
        let n = column_name(cols.last());
        assert forall|i: int| 0 <= i < joined_names(cols).len() implies {
            let ch = #[trigger] joined_names(cols)[i];
            is_name_char(ch) || ch == ',' || ch == ' '
        } by {
            if i < a.len() {
                assert(joined_names(cols)[i] == a[i]);
            } else if i >= a.len() + 2 {
                assert(joined_names(cols)[i] == n[i - a.len() - 2]);
            }
        }
    }
}

proof fn lemma_no_equals_in_defaults()
    ensures
        count_char(columns_defaults_line(), '=') == 0,
        forall|i: int|
            0 <= i < columns_defaults_line().len() ==> #[trigger] columns_defaults_line()[i] != '\n',
        columns_defaults_line().last() == ']',
        columns_defaults_line()[0] == 'D',
{
    reveal_strlit("Defaults: [");
    lemma_joined_names_chars(all_columns());
    let d = columns_defaults_line();
    let h = "Defaults: ["@;
    let j = joined_names(all_columns());
    assert forall|i: int| 0 <= i < d.len() implies d[i] != '=' && d[i] != '\n' by {
        if i < h.len() {
            assert(d[i] == h[i]);
        } else if i < h.len() + j.len() {
            assert(d[i] == j[i - h.len()]);
        }
    }
    lemma_no_char_no_count(d, '=');
}

proof fn lemma_selection_line(c: FullDataEnum)
    requires
        c != FullDataEnum::MD5,
    ensures
        column_of_line(selection_line(c)) == Some(c),
        forall|i: int| 0 <= i < selection_line(c).len() ==> #[trigger] selection_line(c)[i] != '\n',
        selection_line(c).last() == '1',
{
    lemma_name_chars(c);
    let n = column_name(c);
    let l = selection_line(c);
    assert forall|i: int| 0 <= i < n.len() implies n[i] != '=' by {
        assert(is_name_char(n[i]));
    }
    assert forall|i: int| 0 <= i < l.len() implies l[i] != '\n' by {
        if i < n.len() {
            assert(is_name_char(n[i]));
        }
    }
    lemma_find_char_prefix(n, seq!['=', '1'], '=');
    lemma_no_char_no_count(n, '=');
    assert(l.drop_last() =~= n + seq!['=']);
    assert((n + seq!['=']).drop_last() =~= n);
    assert(l.last() == '1');
    assert((n + seq!['=']).last() == '=');
    assert(count_char(n + seq!['='], '=') == count_char(n, '=') + 1);
    assert(count_char(l, '=') == 1);
    assert(l.subrange(n.len() + 1int, l.len() as int) =~= seq!['1']);
    assert(l.subrange(0, n.len() as int) =~= n);
    let one: Seq<char> = seq!['1'];
    assert(trim_start(one) == one);
    assert(trim_end(one) == one);
    assert(!crate::text::is_white_space(n[0])) by {
        assert(is_name_char(n[0]));
    }
    assert(trim_start(n) == n);
    assert(!crate::text::is_white_space(n.last())) by {
        assert(is_name_char(n[n.len() - 1]));
    }
    assert(trim_end(n) == n);
    assert(l[0] == n[0]);
    assert(l[0] != '/') by {
        assert(is_name_char(n[0]));
    }
    law_column_name_roundtrip(c);
}

proof fn lemma_selection_lines_columns(cols: Seq<FullDataEnum>)
    requires
        !cols.contains(FullDataEnum::MD5),
    ensures
        columns_of_lines(cols.map_values(|c: FullDataEnum| selection_line(c))) == cols,
    decreases cols.len(),
{
    let m = cols.map_values(|c: FullDataEnum| selection_line(c));
    if cols.len() > 0 {
        assert(cols[0] != FullDataEnum::MD5);
        lemma_selection_line(cols[0]);
        assert(m.drop_first() =~= cols.drop_first().map_values(|c: FullDataEnum| selection_line(c)));
        assert(!cols.drop_first().contains(FullDataEnum::MD5)) by {
            if cols.drop_first().contains(FullDataEnum::MD5) {
                let k = choose|k: int|
                    0 <= k < cols.drop_first().len() && cols.drop_first()[k] == FullDataEnum::MD5;
                assert(cols[k + 1] == FullDataEnum::MD5);
            }
        }
        lemma_selection_lines_columns(cols.drop_first());
        assert(seq![cols[0]] + cols.drop_first() =~= cols);
    } else {
        assert(m =~= Seq::<Seq<char>>::empty());
        assert(cols =~= Seq::<FullDataEnum>::empty());
    }
}

/// Reading back the columns configuration file written when there is none gives all
/// columns in their declared order, `MD5` last: the defaults.
pub proof fn law_default_columns_roundtrip()
    ensures
        columns_config(default_columns_text()) == all_columns(),
{
    let head = seq![
        columns_comment_1(),
        columns_comment_2(),
        columns_comment_3(),
        columns_defaults_line(),
    ];
    let sel = selectable_columns();
    let tail = sel.map_values(|c: FullDataEnum| selection_line(c));
    let ls = default_columns_lines();
    lemma_comments_shape();
    lemma_no_equals_in_defaults();
    assert(!sel.contains(FullDataEnum::MD5)) by {
        lemma_all_columns_complete(FullDataEnum::MD5);
    }
    assert forall|k: int, i: int| 0 <= k < ls.len() && 0 <= i < ls[k].len() implies #[trigger] ls[k][i]
        != '\n' by {
        if k >= 4 {
            assert(ls[k] == tail[k - 4]);
            assert(sel[k - 4] != FullDataEnum::MD5);
            lemma_selection_line(sel[k - 4]);
        } else if k == 3 {
            assert(ls[k] == columns_defaults_line());
        } else if k == 2 {
            assert(ls[k] == columns_comment_3());
        } else if k == 1 {
            assert(ls[k] == columns_comment_2());
        } else {
            assert(ls[k] == columns_comment_1());
        }
    }
    assert forall|k: int| 0 <= k < ls.len() && ls[k].len() > 0 implies (#[trigger] ls[k]).last() != '\r' by {
        if k >= 4 {
            assert(ls[k] == tail[k - 4]);
            assert(sel[k - 4] != FullDataEnum::MD5);
            lemma_selection_line(sel[k - 4]);
        } else if k == 3 {
            assert(ls[k] == columns_defaults_line());
        } else if k == 2 {
            assert(ls[k] == columns_comment_3());
        } else if k == 1 {
            assert(ls[k] == columns_comment_2());
        } else {
            assert(ls[k] == columns_comment_1());
        }
    }
    lemma_lines_with_newlines(ls);
    lemma_columns_of_lines_concat(head, tail);
    lemma_selection_lines_columns(sel);
    assert(column_of_line(columns_comment_1()) is None);
    assert(column_of_line(columns_comment_2()) is None);
    assert(column_of_line(columns_comment_3()) is None);
    assert(column_of_line(columns_defaults_line()) is None);
    reveal_with_fuel(columns_of_lines, 5);
    assert(head.drop_first() =~= seq![columns_comment_2(), columns_comment_3(), columns_defaults_line()]);
    assert(head.drop_first().drop_first() =~= seq![columns_comment_3(), columns_defaults_line()]);
    assert(head.drop_first().drop_first().drop_first() =~= seq![columns_defaults_line()]);
    assert(head.drop_first().drop_first().drop_first().drop_first() =~= Seq::<Seq<char>>::empty());
    assert(columns_of_lines(head) =~= Seq::<FullDataEnum>::empty());
    assert(sel.push(FullDataEnum::MD5) =~= all_columns());
}

/// `get_all_enum_values` lists every column exactly once, each at its declared position.
pub proof fn law_all_columns_once(c: FullDataEnum)
    ensures
        all_columns().len() == 40,
        all_columns()[column_index(c)] == c,
        forall|i: int, j: int|
            0 <= i < all_columns().len() && 0 <= j < all_columns().len() && all_columns()[i]
                == all_columns()[j] ==> i == j,
{
    let all = all_columns();
    lemma_all_columns_complete(c);
    assert forall|i: int| 0 <= i < all.len() implies column_index(#[trigger] all[i]) == i by {
        if i == 0 {} else if i == 1 {} else if i == 2 {} else if i == 3 {} else if i == 4 {} else if i == 5 {} else if i == 6 {} else if i == 7 {} else if i == 8 {} else if i == 9 {} else if i == 10 {} else if i == 11 {} else if i == 12 {} else if i == 13 {} else if i == 14 {} else if i == 15 {} else if i == 16 {} else if i == 17 {} else if i == 18 {} else if i == 19 {} else if i == 20 {} else if i == 21 {} else if i == 22 {} else if i == 23 {} else if i == 24 {} else if i == 25 {} else if i == 26 {} else if i == 27 {} else if i == 28 {} else if i == 29 {} else if i == 30 {} else if i == 31 {} else if i == 32 {} else if i == 33 {} else if i == 34 {} else if i == 35 {} else if i == 36 {} else if i == 37 {} else if i == 38 {} else if i == 39 {}
    }
}

/// The header row of the results table: the name of each shown column, in order.
pub fn column_headers(columns: &[FullDataEnum]) -> (r: Vec<String>)
    ensures
        r@.len() == columns@.len(),
        forall|i: int| 0 <= i < columns@.len() ==> (#[trigger] r@[i])@ == column_name(columns@[i]),
{
    let mut r: Vec<String> = Vec::new();
    let mut i: usize = 0;
    while i < columns.len()
        invariant
            i <= columns@.len(),
            r@.len() == i,
            forall|k: int| 0 <= k < i ==> (#[trigger] r@[k])@ == column_name(columns@[k]),
        decreases columns@.len() - i,
    {
        r.push(String::from_str(columns[i].name()));
        i = i + 1;
    }
    r
}

proof fn lemma_find_column_member(s: Seq<char>, cols: Seq<FullDataEnum>)
    ensures
        find_column(s, cols) matches Some(c) ==> cols.contains(c),
    decreases cols.len(),
{
    if cols.len() > 0 && column_name(cols[0]) != s {
        lemma_find_column_member(s, cols.drop_first());
        if let Some(c) = find_column(s, cols.drop_first()) {
            let k = choose|k: int| 0 <= k < cols.drop_first().len() && cols.drop_first()[k] == c;
            assert(cols[k + 1] == c);
        }
    } else if cols.len() > 0 {
        assert(cols[0] == cols[0]);
    }
}

proof fn lemma_lines_never_select_md5(ls: Seq<Seq<char>>)
    ensures
        !columns_of_lines(ls).contains(FullDataEnum::MD5),
    decreases ls.len(),
{
    if ls.len() > 0 {
        lemma_lines_never_select_md5(ls.drop_first());
        let line = ls[0];
        let rest = columns_of_lines(ls.drop_first());
        if column_of_line(line) is Some {
            let c = column_of_line(line)->0;
            let k = find_char(line, '=');
            lemma_find_column_member(trim(line.subrange(0, k as int)), selectable_columns());
            lemma_all_columns_complete(c);
            assert(c != FullDataEnum::MD5);
        }
        let whole = selected_by(line) + rest;
        assert forall|i: int| 0 <= i < whole.len() implies whole[i] != FullDataEnum::MD5 by {
            if i >= selected_by(line).len() {
                assert(whole[i] == rest[i - selected_by(line).len()]);
            }
        }
    }
}

/// `MD5` is always shown, once, as the last column, whatever the configuration file says.
pub proof fn law_md5_always_last(text: Seq<char>)
    ensures
        columns_config(text).last() == FullDataEnum::MD5,
        forall|i: int|
            0 <= i < columns_config(text).len() - 1 ==> columns_config(text)[i]
                != FullDataEnum::MD5,
{
    lemma_lines_never_select_md5(lines(text));
    let chosen = columns_of_lines(lines(text));
    assert forall|i: int| 0 <= i < columns_config(text).len() - 1 implies columns_config(text)[i]
        != FullDataEnum::MD5 by {
        assert(columns_config(text)[i] == chosen[i]);
    }
}

} // verus!
