//! The preset catalog: which presets are installed, how they are listed, and which ones a
//! selection installs. Fetching the catalog and the themes stays with the caller.
use vstd::prelude::*;
use crate::converter::strings_view;

verus! {

/// One preset of the catalog.
pub struct PresetEntry {
    pub slug: String,
    pub name: String,
    pub author: String,
    pub license: String,
}

/// How a preset is offered: `{name} by {author} [{license}]`.
pub open spec fn preset_text(p: PresetEntry) -> Seq<char> {
    p.name@ + " by "@ + p.author@ + " ["@ + p.license@ + "]"@
}

/// How a preset is offered: `{name} by {author} [{license}]`.
pub fn preset_option(p: &PresetEntry) -> (s: String)
    ensures
        s@ == preset_text(*p),
{
    let mut s = p.name.clone();
    s.append(" by ");
    s.append(p.author.as_str());
    s.append(" [");
    s.append(p.license.as_str());
    s.append("]");
    s
}

/// A line of the preset list, marked when the preset is installed.
pub fn preset_list_line(p: &PresetEntry, installed: &Vec<String>) -> (s: String)
    ensures
        s@ == "  "@ + preset_text(*p) + if strings_view(installed@).contains(p.slug@) {
            " (installed)"@
        } else {
            ""@
        },
{
    let mut s = String::from_str("  ");
    let option = preset_option(p);
    s.append(option.as_str());
    let marked = crate::preview::listed(installed, &p.slug);
    if marked {
        s.append(" (installed)");
    }
    proof {
        reveal_strlit("");
        assert("  "@ + preset_text(*p) + ""@ =~= "  "@ + preset_text(*p));
    }
    s
}

/// The positions of the presets not yet installed, in catalog order.
pub open spec fn not_installed(presets: Seq<PresetEntry>, installed: Seq<Seq<char>>, n: int) -> Seq<
    usize,
>
    decreases n,
{
    if n <= 0 {
        seq![]
    } else if installed.contains(presets[n - 1].slug@) {
        not_installed(presets, installed, n - 1)
    } else {
        not_installed(presets, installed, n - 1).push((n - 1) as usize)
    }
}

/// The positions of the presets not yet installed, in catalog order.
pub fn available_presets(presets: &Vec<PresetEntry>, installed: &Vec<String>) -> (idx: Vec<usize>)
    ensures
        idx@ == not_installed(presets@, strings_view(installed@), presets@.len() as int),
{
    let mut idx: Vec<usize> = Vec::new();
    let mut i: usize = 0;
    while i < presets.len()
        invariant
            i <= presets.len(),
            idx@ == not_installed(presets@, strings_view(installed@), i as int),
        decreases presets.len() - i,
    {
        if !crate::preview::listed(installed, &presets[i].slug) {
            idx.push(i);
        }
        i += 1;
    }
    idx
}

/// The first position of `s` among `options`.
pub open spec fn first_position(options: Seq<Seq<char>>, s: Seq<char>, n: int) -> Option<int>
    decreases n,
{
    if n <= 0 {
        None
    } else {
        match first_position(options, s, n - 1) {
            Some(i) => Some(i),
            None => if options[n - 1] == s {
                Some(n - 1)
            } else {
                None
            },
        }
    }
}

/// For each picked option, in the order picked, the position of the first option equal to
/// it; picks matching no option are left out.
pub open spec fn picked_positions(options: Seq<Seq<char>>, picked: Seq<Seq<char>>, n: int) -> Seq<
    usize,
>
    decreases n,
{
    if n <= 0 {
        seq![]
    } else {
        match first_position(options, picked[n - 1], options.len() as int) {
            Some(i) => picked_positions(options, picked, n - 1).push(i as usize),
            None => picked_positions(options, picked, n - 1),
        }
    }
}

/// The options chosen, as positions among `options`, in the order they were picked.
pub fn picked_options(options: &Vec<String>, picked: &Vec<String>) -> (idx: Vec<usize>)
    ensures
        idx@ == picked_positions(strings_view(options@), strings_view(picked@), picked@.len() as int),
{
    let mut idx: Vec<usize> = Vec::new();
    let mut k: usize = 0;
    while k < picked.len()
        invariant
            k <= picked.len(),
            idx@ == picked_positions(strings_view(options@), strings_view(picked@), k as int),
        decreases picked.len() - k,
    {
        let mut found: Option<usize> = None;
        let mut i: usize = 0;
        while i < options.len()
            invariant
                k < picked.len(),
                i <= options.len(),
                found == match first_position(strings_view(options@), picked@[k as int]@, i as int) {
                    Some(p) => Some(p as usize),
                    None => None::<usize>,
                },
                found matches Some(p) ==> p < i,
            decreases options.len() - i,
        {
            if found.is_none() && options[i] == picked[k] {
                found = Some(i);
            }
            i += 1;
        }
        assert(strings_view(picked@)[k as int] == picked@[k as int]@);
        match found {
            Some(p) => idx.push(p),
            None => {},
        }
        k += 1;
    }
    idx
}

/// `n` in decimal.
fn decimal(n: u64) -> (s: String)
    ensures
        s@ == crate::update::dec_digits(n as nat),
{
    let mut digits: Vec<char> = Vec::new();
    crate::update::push_dec(&mut digits, n);
    assert(digits@ =~= crate::update::dec_digits(n as nat));
    crate::text::string_from_chars(&digits)
}

/// The closing line of an install: how many of the chosen themes were saved.
pub fn install_summary(saved: usize, chosen: usize) -> (s: String)
    ensures
        s@ == "\nInstalled "@ + crate::update::dec_digits(saved as nat) + "/"@
            + crate::update::dec_digits(chosen as nat) + " themes."@,
{
    let mut s = String::from_str("\nInstalled ");
    s.append(decimal(saved as u64).as_str());
    s.append("/");
    s.append(decimal(chosen as u64).as_str());
    s.append(" themes.");
    s
}

} // verus!
