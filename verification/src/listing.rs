//! The list of fonts that the pages of a generation run show: one line per
//! font, with its family, its cell size and its encoding.

use crate::catalog::FontFamily;
use crate::sheet::GlyphSheet;
use vstd::prelude::*;
use vstd::string::*;

verus! {

/// One line of the list.
#[derive(Debug)]
pub struct Font {
    pub family: String,
    pub width: u32,
    pub height: u32,
    pub encoding: String,
}

/// What a `Font` stands for.
pub struct FontView {
    pub family: Seq<char>,
    pub width: u32,
    pub height: u32,
    pub encoding: Seq<char>,
}

impl View for Font {
    type V = FontView;

    open spec fn view(&self) -> FontView {
        FontView { family: self.family@, width: self.width, height: self.height, encoding: self.encoding@ }
    }
}

/// What a sequence of lines stands for.
pub open spec fn fonts_view(fonts: Seq<Font>) -> Seq<FontView> {
    fonts.map_values(|f: Font| f@)
}

/// The line of one font: its width and height are those of a glyph cell.
pub open spec fn line_of(family: Seq<char>, encoding: Seq<char>, font: GlyphSheet) -> FontView {
    FontView { family, width: font.cell_width, height: font.cell_height, encoding }
}

/// The lines of one catalog entry, one per font, in order.
pub open spec fn family_lines(entry: FontFamily) -> Seq<FontView> {
    Seq::new(entry.fonts@.len(), |i: int| line_of(entry.family@, entry.encoding@, entry.fonts@[i]))
}

/// The lines of a catalog: those of its entries, one entry after the other.
pub open spec fn catalog_lines(catalog: Seq<FontFamily>) -> Seq<FontView>
    decreases catalog.len(),
{
    if catalog.len() == 0 {
        Seq::empty()
    } else {
        catalog_lines(catalog.drop_last()) + family_lines(catalog.last())
    }
}

/// The lines of the fonts drawn from atlases, which belong to `ascii`.
pub open spec fn extra_lines(extras: Seq<(String, GlyphSheet)>) -> Seq<FontView> {
    Seq::new(extras.len(), |i: int| line_of(extras[i].0@, "ascii"@, extras[i].1))
}

/// Whether a line belongs to the encoding `slug`.
pub open spec fn in_encoding(slug: Seq<char>) -> spec_fn(FontView) -> bool {
    |f: FontView| f.encoding == slug
}

/// The line of one font.
fn line(family: &String, encoding: &String, font: &GlyphSheet) -> (f: Font)
    ensures
        f@ == line_of(family@, encoding@, *font),
{
    Font {
        family: family.clone(),
        width: font.cell_width,
        height: font.cell_height,
        encoding: encoding.clone(),
    }
}

/// Lists every font of a run: those of the catalog, entry by entry, then
/// those drawn from atlases under the encoding `ascii`.
pub fn make_fonts(catalog: &Vec<FontFamily>, extras: &Vec<(String, GlyphSheet)>) -> (fonts: Vec<Font>)
    ensures
        fonts_view(fonts@) == catalog_lines(catalog@) + extra_lines(extras@),
{
    let mut fonts: Vec<Font> = Vec::new();
    let mut k: usize = 0;
    while k < catalog.len()
        invariant
            k <= catalog@.len(),
            fonts_view(fonts@) == catalog_lines(catalog@.take(k as int)),
        decreases catalog@.len() - k,
    {
        let entry = &catalog[k];
        let ghost before = fonts_view(fonts@);
        let mut i: usize = 0;
        while i < entry.fonts.len()
            invariant
                i <= entry.fonts@.len(),
                fonts_view(fonts@) == before + family_lines(*entry).take(i as int),
            decreases entry.fonts@.len() - i,
        {
            let f = line(&entry.family, &entry.encoding, &entry.fonts[i]);
            let ghost old_fonts = fonts@;
            fonts.push(f);
            proof {
                assert(fonts_view(fonts@) =~= fonts_view(old_fonts).push(f@));
                assert(family_lines(*entry).take(i + 1) =~= family_lines(*entry).take(i as int).push(f@));
                assert(fonts_view(fonts@) =~= before + family_lines(*entry).take(i + 1));
            }
            i += 1;
        }
        proof {
            assert(family_lines(*entry).take(i as int) =~= family_lines(*entry));
            assert(catalog@.take(k + 1).drop_last() =~= catalog@.take(k as int));
            assert(catalog@.take(k + 1).last() == *entry);
        }
        k += 1;
    }
    assert(catalog@.take(k as int) =~= catalog@);
    let ghost before = fonts_view(fonts@);
    let ascii = String::from_str("ascii");
    let mut i: usize = 0;
    while i < extras.len()
        invariant
            i <= extras@.len(),
            ascii@ == "ascii"@,
            fonts_view(fonts@) == before + extra_lines(extras@).take(i as int),
        decreases extras@.len() - i,
    {
        let f = line(&extras[i].0, &ascii, &extras[i].1);
        let ghost old_fonts = fonts@;
        fonts.push(f);
        proof {
            assert(fonts_view(fonts@) =~= fonts_view(old_fonts).push(f@));
            assert(extra_lines(extras@).take(i + 1) =~= extra_lines(extras@).take(i as int).push(f@));
            assert(fonts_view(fonts@) =~= before + extra_lines(extras@).take(i + 1));
        }
        i += 1;
    }
    assert(extra_lines(extras@).take(i as int) =~= extra_lines(extras@));
    fonts
}

/// The lines that belong to the encoding `slug`, in their order.
pub fn fonts_for_encoding(fonts: &Vec<Font>, slug: &String) -> (chosen: Vec<Font>)
    ensures
        fonts_view(chosen@) == fonts_view(fonts@).filter(in_encoding(slug@)),
{
    let mut chosen: Vec<Font> = Vec::new();
    let mut i: usize = 0;
    assert(fonts_view(fonts@).take(0) =~= Seq::<FontView>::empty());
    while i < fonts.len()
        invariant
            i <= fonts@.len(),
            fonts_view(chosen@) == fonts_view(fonts@).take(i as int).filter(in_encoding(slug@)),
        decreases fonts@.len() - i,
    {
        let f = &fonts[i];
        let ghost seen = fonts_view(fonts@).take(i as int);
        proof {
            assert(fonts_view(fonts@).take(i + 1) =~= seen.push(f@));
            seen.lemma_filter_push(f@, in_encoding(slug@));
        }
        if f.encoding == *slug {
            let copy = Font {
                family: f.family.clone(),
                width: f.width,
                height: f.height,
                encoding: f.encoding.clone(),
            };
            let ghost old_chosen = chosen@;
            chosen.push(copy);
            assert(fonts_view(chosen@) =~= fonts_view(old_chosen).push(f@));
        }
        i += 1;
    }
    assert(fonts_view(fonts@).take(i as int) =~= fonts_view(fonts@));
    chosen
}

} // verus!
