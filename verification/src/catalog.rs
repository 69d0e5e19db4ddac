//! The fonts of a generation run: the catalog that the caller supplies, the
//! fonts drawn from atlas images, and the files that a run writes for them.

use crate::bitmap::{Grid, PackedBitmap};
use crate::bits::{bits_fit, bits_of};
use crate::error::CodecError;
use crate::names::{encoding_index, file_name_of, font_file_name, is_listed, lemma_slot_unique, slot_of};
use crate::pack::packed;
use crate::sheet::{dump_font, file_bytes, sheet_header, GlyphSheet};
use crate::unpack::{rows_of, whole_rows};
use vstd::prelude::*;
use vstd::string::*;

verus! {

/// The packed atlases of the four fonts that are drawn from images.
#[derive(Debug)]
pub struct Atlases {
    pub ibm437b: Vec<u8>,
    pub ibm437r: Vec<u8>,
    pub pico8: Vec<u8>,
    pub profont: Vec<u8>,
}

/// The fonts of one family in one encoding.
#[derive(Debug)]
pub struct FontFamily {
    /// Name of the family; it starts the name of each file.
    pub family: String,
    /// Name of the encoding; it is the directory of each file.
    pub encoding: String,
    /// The variants, one file each.
    pub fonts: Vec<GlyphSheet>,
}

/// A file to be written: where it goes, and what it holds.
#[derive(Debug)]
pub struct FontFile {
    pub directory: String,
    pub file_name: String,
    pub contents: Vec<u8>,
}

/// What a `FontFile` stands for.
pub struct FontFileView {
    pub directory: Seq<char>,
    pub file_name: Seq<char>,
    pub contents: Seq<u8>,
}

impl View for FontFile {
    type V = FontFileView;

    open spec fn view(&self) -> FontFileView {
        FontFileView { directory: self.directory@, file_name: self.file_name@, contents: self.contents@ }
    }
}

/// Whether `entry` is the font of `family` with the given metrics whose
/// sheet is `atlas`, taken as packed rows of `atlas_width` pixels.
pub open spec fn is_atlas_font(
    entry: (String, GlyphSheet),
    family: Seq<char>,
    atlas: Seq<u8>,
    atlas_width: nat,
    cell_width: u32,
    cell_height: u32,
    baseline: u32,
) -> bool {
    &&& entry.0@ == family
    &&& entry.1.cell_width == cell_width
    &&& entry.1.cell_height == cell_height
    &&& entry.1.baseline == baseline
    &&& entry.1.image@ == (Grid {
        width: atlas_width,
        height: rows_of(atlas.len() * 8, atlas_width),
        pixels: bits_of(atlas),
    })
}

/// Whether each atlas fills whole rows at the width of its font.
pub open spec fn atlases_fit(atlases: Atlases) -> bool {
    &&& whole_rows(atlases.pico8@.len() * 8, 64)
    &&& whole_rows(atlases.profont@.len() * 8, 80)
    &&& whole_rows(atlases.ibm437b@.len() * 8, 128)
    &&& whole_rows(atlases.ibm437r@.len() * 8, 128)
}

/// The font of `family` whose sheet is `atlas`, taken as packed rows of
/// `atlas_width` pixels.
fn atlas_font(
    family: &str,
    atlas: Vec<u8>,
    atlas_width: usize,
    cell_width: u32,
    cell_height: u32,
    baseline: u32,
) -> (r: Result<(String, GlyphSheet), CodecError>)
    requires
        bits_fit(atlas@.len()),
    ensures
        r is Ok <==> whole_rows(atlas@.len() * 8, atlas_width as nat),
        r matches Ok(entry) ==> is_atlas_font(
            entry,
            family@,
            atlas@,
            atlas_width as nat,
            cell_width,
            cell_height,
            baseline,
        ),
        r matches Err(e) ==> e == CodecError::InvalidDimensions,
{
    match PackedBitmap::from_bytes(atlas, atlas_width) {
        Ok(image) => Ok((String::from_str(family), GlyphSheet { cell_width, cell_height, baseline, image })),
        Err(e) => Err(e),
    }
}

/// The four fonts that come from atlas images, in the order in which their
/// files are written: `pico8` (4x6 cells, sheet 64 pixels wide), `profont`
/// (5x10, 80 wide), `ibm437b` and `ibm437r` (8x8, 128 wide). Fails with
/// `InvalidDimensions` where an atlas does not fill whole rows.
pub fn get_fonts(atlases: Atlases) -> (r: Result<Vec<(String, GlyphSheet)>, CodecError>)
    requires
        bits_fit(atlases.ibm437b@.len()),
        bits_fit(atlases.ibm437r@.len()),
        bits_fit(atlases.pico8@.len()),
        bits_fit(atlases.profont@.len()),
    ensures
        r is Ok <==> atlases_fit(atlases),
        r matches Ok(fonts) ==> {
            &&& fonts@.len() == 4
            &&& is_atlas_font(fonts@[0], "pico8"@, atlases.pico8@, 64, 4, 6, 5)
            &&& is_atlas_font(fonts@[1], "profont"@, atlases.profont@, 80, 5, 10, 9)
            &&& is_atlas_font(fonts@[2], "ibm437b"@, atlases.ibm437b@, 128, 8, 8, 7)
            &&& is_atlas_font(fonts@[3], "ibm437r"@, atlases.ibm437r@, 128, 8, 8, 7)
        },
        r matches Err(e) ==> e == CodecError::InvalidDimensions,
{
    let Atlases { ibm437b, ibm437r, pico8, profont } = atlases;
    let ibm437b = match atlas_font("ibm437b", ibm437b, 128, 8, 8, 7) {
        Ok(font) => font,
        Err(e) => {
            return Err(e);
        },
    };
    let ibm437r = match atlas_font("ibm437r", ibm437r, 128, 8, 8, 7) {
        Ok(font) => font,
        Err(e) => {
            return Err(e);
        },
    };
    let pico8 = match atlas_font("pico8", pico8, 64, 4, 6, 5) {
        Ok(font) => font,
        Err(e) => {
            return Err(e);
        },
    };
    let profont = match atlas_font("profont", profont, 80, 5, 10, 9) {
        Ok(font) => font,
        Err(e) => {
            return Err(e);
        },
    };
    let mut fonts: Vec<(String, GlyphSheet)> = Vec::with_capacity(4);
    fonts.push(pico8);
    fonts.push(profont);
    fonts.push(ibm437b);
    fonts.push(ibm437r);
    Ok(fonts)
}

/// The file of one font: it goes to the directory named after the encoding,
/// is named after family and cell size, and holds the header for the
/// encoding's place followed by the packed sheet.
pub open spec fn file_of(
    family: Seq<char>,
    encoding: Seq<char>,
    slot: int,
    font: GlyphSheet,
) -> FontFileView {
    FontFileView {
        directory: encoding,
        file_name: file_name_of(family, font.cell_width, font.cell_height),
        contents: file_bytes(sheet_header(slot as usize, font), packed(font.image@.pixels)),
    }
}

/// The files of one catalog entry, one per font, in order.
pub open spec fn family_files(encodings: Seq<String>, entry: FontFamily) -> Seq<FontFileView> {
    let slot = slot_of(encodings, entry.encoding@);
    Seq::new(entry.fonts@.len(), |i: int| file_of(entry.family@, entry.encoding@, slot, entry.fonts@[i]))
}

/// The files of a catalog: those of its entries, one entry after the other.
pub open spec fn catalog_files(encodings: Seq<String>, catalog: Seq<FontFamily>) -> Seq<FontFileView>
    decreases catalog.len(),
{
    if catalog.len() == 0 {
        Seq::empty()
    } else {
        catalog_files(encodings, catalog.drop_last()) + family_files(encodings, catalog.last())
    }
}

/// The files of the fonts drawn from atlases: they belong to the encoding
/// `ascii`, whose place is 0.
pub open spec fn extra_files(extras: Seq<(String, GlyphSheet)>) -> Seq<FontFileView> {
    Seq::new(extras.len(), |i: int| file_of(extras[i].0@, "ascii"@, 0, extras[i].1))
}

/// The number of fonts in a catalog.
pub open spec fn font_count(catalog: Seq<FontFamily>) -> nat
    decreases catalog.len(),
{
    if catalog.len() == 0 {
        0
    } else {
        font_count(catalog.drop_last()) + catalog.last().fonts@.len()
    }
}

/// Whether every encoding that the catalog names is among `encodings`.
pub open spec fn all_listed(encodings: Seq<String>, catalog: Seq<FontFamily>) -> bool {
    forall|k: int| 0 <= k < catalog.len() ==> is_listed(encodings, (#[trigger] catalog[k]).encoding@)
}

/// What a sequence of files stands for.
pub open spec fn files_view(files: Seq<FontFile>) -> Seq<FontFileView> {
    files.map_values(|f: FontFile| f@)
}

/// A catalog gives one file for each of its fonts.
pub proof fn lemma_catalog_files_len(encodings: Seq<String>, catalog: Seq<FontFamily>)
    ensures
        catalog_files(encodings, catalog).len() == font_count(catalog),
    decreases catalog.len(),
{
    if catalog.len() > 0 {
        lemma_catalog_files_len(encodings, catalog.drop_last());
    }
}

/// The file for one font of `family` in `encoding`, which has the place
/// `encoding_index` among the encodings.
pub fn font_file(family: &String, encoding: &String, encoding_index: usize, font: &GlyphSheet) -> (file:
    FontFile)
    ensures
        file@ == file_of(family@, encoding@, encoding_index as int, *font),
{
    FontFile {
        directory: encoding.clone(),
        file_name: font_file_name(family.as_str(), font.cell_width, font.cell_height),
        contents: dump_font(encoding_index, font),
    }
}

/// Plans a whole generation run: the files of the catalog, entry by entry,
/// then those of the fonts drawn from atlases. Each file is stamped with the
/// place of its encoding in `encodings`, so every encoding that the catalog
/// names must be listed there.
pub fn save_all_fonts(
    encodings: &Vec<String>,
    catalog: &Vec<FontFamily>,
    extras: &Vec<(String, GlyphSheet)>,
) -> (files: Vec<FontFile>)
    requires
        all_listed(encodings@, catalog@),
    ensures
        files_view(files@) == catalog_files(encodings@, catalog@) + extra_files(extras@),
        files@.len() == font_count(catalog@) + extras@.len(),
{
    let mut files: Vec<FontFile> = Vec::new();
    let mut k: usize = 0;
    while k < catalog.len()
        invariant
            k <= catalog@.len(),
            all_listed(encodings@, catalog@),
            files_view(files@) == catalog_files(encodings@, catalog@.take(k as int)),
        decreases catalog@.len() - k,
    {
        let entry = &catalog[k];
        let slot = match encoding_index(encodings, &entry.encoding) {
            Some(slot) => slot,
            None => {
                assert(is_listed(encodings@, catalog@[k as int].encoding@));
                proof {
                    assert(false);
                }
                0
            },
        };
        proof {
            lemma_slot_unique(encodings@, entry.encoding@, slot as int);
        }
        let ghost before = files_view(files@);
        let mut i: usize = 0;
        while i < entry.fonts.len()
            invariant
                i <= entry.fonts@.len(),
                slot == slot_of(encodings@, entry.encoding@),
                files_view(files@) == before + family_files(encodings@, *entry).take(i as int),
            decreases entry.fonts@.len() - i,
        {
            let file = font_file(&entry.family, &entry.encoding, slot, &entry.fonts[i]);
            let ghost old_files = files@;
            files.push(file);
            proof {
                assert(files_view(files@) =~= files_view(old_files).push(file@));
                assert(family_files(encodings@, *entry).take(i + 1) =~= family_files(
                    encodings@,
                    *entry,
                ).take(i as int).push(file@));
                assert(files_view(files@) =~= before + family_files(encodings@, *entry).take(i + 1));
            }
            i += 1;
        }
        proof {
            assert(family_files(encodings@, *entry).take(i as int) =~= family_files(encodings@, *entry));
            assert(catalog@.take(k + 1).drop_last() =~= catalog@.take(k as int));
            assert(catalog@.take(k + 1).last() == *entry);
        }
        k += 1;
    }
    assert(catalog@.take(k as int) =~= catalog@);
    let ghost before = files_view(files@);
    let ascii = String::from_str("ascii");
    let mut i: usize = 0;
    while i < extras.len()
        invariant
            i <= extras@.len(),
            ascii@ == "ascii"@,
            files_view(files@) == before + extra_files(extras@).take(i as int),
        decreases extras@.len() - i,
    {
        let file = font_file(&extras[i].0, &ascii, 0, &extras[i].1);
        let ghost old_files = files@;
        files.push(file);
        proof {
            assert(files_view(files@) =~= files_view(old_files).push(file@));
            assert(extra_files(extras@).take(i + 1) =~= extra_files(extras@).take(i as int).push(file@));
            assert(files_view(files@) =~= before + extra_files(extras@).take(i + 1));
        }
        i += 1;
    }
    proof {
        assert(extra_files(extras@).take(i as int) =~= extra_files(extras@));
        lemma_catalog_files_len(encodings@, catalog@);
        assert(files_view(files@).len() == files@.len());
    }
    files
}

} // verus!
