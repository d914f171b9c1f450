//! Hardware facts for a spec-aware model recommendation: reading the GPU
//! probes' output, and choosing the model that fits.
use vstd::prelude::*;

use crate::model::Model;
use crate::number::{parse_u64, parse_u64_spec};
use crate::secret::{lines_of, text_lines};
use crate::text::{chars_of, eq_str, owned, split_chars, split_on, string_from_chars, trim, trim_chars, views};

verus! {

/// What was detected about the machine.
#[derive(Debug, Clone)]
pub struct Hardware {
    pub cpu_brand: String,
    pub cpu_cores: usize,
    pub ram_total_mb: u64,
    pub gpu: Option<GpuInfo>,
}

/// A detected graphics card.
#[derive(Debug, Clone)]
pub struct GpuInfo {
    pub vendor: String,
    pub name: String,
    pub vram_mb: u64,
}

/// Whether `m` fits the machine: at most half the VRAM when there is a GPU,
/// else at most a quarter of the RAM; multilingual models are left out when
/// only English is wanted.
pub open spec fn fits(hw: Hardware, m: Model, english_only: bool) -> bool {
    &&& !(english_only && m.language@ == "multi"@)
    &&& match hw.gpu {
        Some(g) => (m.vram_mb as int) * 2 <= g.vram_mb,
        None => (m.size_mb as int) * 4 <= hw.ram_total_mb,
    }
}

/// The index of the largest fitting model, the later one on ties; -1 when
/// none fits.
pub open spec fn best_fit(hw: Hardware, catalog: Seq<Model>, english_only: bool) -> int
    decreases catalog.len(),
{
    if catalog.len() == 0 {
        -1
    } else {
        let prev = best_fit(hw, catalog.drop_last(), english_only);
        if fits(hw, catalog.last(), english_only) && (prev == -1 || catalog.last().size_mb
            >= catalog[prev].size_mb) {
            catalog.len() - 1
        } else {
            prev
        }
    }
}

/// The recommendation is the largest model that fits: it fits, no fitting
/// model is larger, and there is none only when no model fits.
pub proof fn lemma_best_fit_largest(hw: Hardware, catalog: Seq<Model>, english_only: bool)
    ensures
        -1 <= best_fit(hw, catalog, english_only) < catalog.len(),
        best_fit(hw, catalog, english_only) == -1 <==> forall|i: int|
            0 <= i < catalog.len() ==> !fits(hw, #[trigger] catalog[i], english_only),
        best_fit(hw, catalog, english_only) != -1 ==> {
            let b = best_fit(hw, catalog, english_only);
            &&& fits(hw, catalog[b], english_only)
            &&& forall|i: int|
                0 <= i < catalog.len() && fits(hw, #[trigger] catalog[i], english_only)
                    ==> catalog[i].size_mb <= catalog[b].size_mb
        },
    decreases catalog.len(),
{
    if catalog.len() > 0 {
        let n = catalog.len() - 1;
        let d = catalog.drop_last();
        lemma_best_fit_largest(hw, d, english_only);
        let prev = best_fit(hw, d, english_only);
        let b = best_fit(hw, catalog, english_only);
        assert forall|i: int| 0 <= i < n implies #[trigger] d[i] == catalog[i] by {}
        if prev != -1 {
            assert(d[prev] == catalog[prev]);
        }
        if b == -1 {
            assert forall|i: int| 0 <= i < catalog.len() implies !fits(
                hw,
                #[trigger] catalog[i],
                english_only,
            ) by {
                if i < n {
                    assert(d[i] == catalog[i]);
                }
            }
        } else {
            assert forall|i: int|
                0 <= i < catalog.len() && fits(hw, #[trigger] catalog[i], english_only) implies catalog[i].size_mb
                <= catalog[b].size_mb by {
                if i < n {
                    assert(d[i] == catalog[i]);
                    assert(fits(hw, d[i], english_only));
                }
            }
            if b == n {
                assert(fits(hw, catalog[n], english_only));
            } else {
                assert(fits(hw, d[prev], english_only));
            }
        }
        if forall|i: int| 0 <= i < catalog.len() ==> !fits(hw, #[trigger] catalog[i], english_only) {
            assert(!fits(hw, catalog[n], english_only));
            assert forall|i: int| 0 <= i < d.len() implies !fits(hw, #[trigger] d[i], english_only) by {
                assert(d[i] == catalog[i]);
            }
        }
    }
}

fn model_fits(hw: &Hardware, m: &Model, english_only: bool) -> (r: bool)
    ensures
        r == fits(*hw, *m, english_only),
{
    if english_only {
        let lang = chars_of(m.language.as_str());
        if eq_str(lang.as_slice(), "multi") {
            return false;
        }
    }
    match &hw.gpu {
        Some(g) => (m.vram_mb as u64) * 2 <= g.vram_mb,
        None => (m.size_mb as u64) * 4 <= hw.ram_total_mb,
    }
}

/// Picks the highest-accuracy (largest) model that fits comfortably in the
/// detected hardware.
pub fn recommend<'a>(hw: &Hardware, catalog: &'a [Model], english_only: bool) -> (r: Option<
    &'a Model,
>)
    ensures
        best_fit(*hw, catalog@, english_only) == -1 ==> r is None,
        best_fit(*hw, catalog@, english_only) != -1 ==> r == Some(
            &catalog@[best_fit(*hw, catalog@, english_only)],
        ),
{
    let mut best: Option<usize> = None;
    let mut i: usize = 0;
    while i < catalog.len()
        invariant
            i <= catalog.len(),
            match best {
                None => best_fit(*hw, catalog@.take(i as int), english_only) == -1,
                Some(b) => b < i && best_fit(*hw, catalog@.take(i as int), english_only) == b,
            },
        decreases catalog.len() - i,
    {
        let ghost t = catalog@.take(i + 1);
        assert(t.drop_last() =~= catalog@.take(i as int));
        assert(t.last() == catalog@[i as int]);
        if model_fits(hw, &catalog[i], english_only) {
            match best {
                None => {
                    best = Some(i);
                },
                Some(b) => {
                    assert(t[b as int] == catalog@[b as int]);
                    if catalog[i].size_mb >= catalog[b].size_mb {
                        best = Some(i);
                    }
                },
            }
        }
        i = i + 1;
    }
    assert(catalog@.take(catalog.len() as int) =~= catalog@);
    match best {
        Some(b) => Some(&catalog[b]),
        None => None,
    }
}

/// What the first line of `nvidia-smi --query-gpu=name,memory.total
/// --format=csv,noheader,nounits` describes: a GPU named by the first field
/// with the VRAM (in MB) of the second, when both are there and the second
/// is a number.
pub open spec fn nvidia_gpu(stdout: Seq<char>) -> Option<(Seq<char>, int)> {
    let ls = text_lines(stdout);
    let line = trim(if ls.len() > 0 {
        ls[0]
    } else {
        Seq::empty()
    });
    let fields = split_on(line, ',');
    if line.len() == 0 || fields.len() < 2 {
        None
    } else {
        match parse_u64_spec(trim(fields[1])) {
            Ok(v) => Some((trim(fields[0]), v)),
            Err(_) => None,
        }
    }
}

/// Reads the GPU from `nvidia-smi` output.
pub fn parse_nvidia_smi(stdout: &str) -> (r: Option<GpuInfo>)
    ensures
        nvidia_gpu(stdout@) is None ==> r is None,
        nvidia_gpu(stdout@) matches Some((name, vram)) ==> r matches Some(g) && g.vendor@
            == "NVIDIA"@ && g.name@ == name && g.vram_mb == vram,
{
    let text = chars_of(stdout);
    let ls = lines_of(text.as_slice());
    let first: Vec<char> = if ls.len() > 0 {
        assert(views(ls@)[0] == ls@[0]@);
        ls[0].clone()
    } else {
        Vec::new()
    };
    let line = trim_chars(first.as_slice());
    if line.len() == 0 {
        return None;
    }
    let fields = split_chars(line.as_slice(), ',');
    if fields.len() < 2 {
        return None;
    }
    assert(views(fields@)[0] == fields@[0]@);
    assert(views(fields@)[1] == fields@[1]@);
    let name = trim_chars(fields[0].as_slice());
    let vram_text = trim_chars(fields[1].as_slice());
    match parse_u64(vram_text.as_slice()) {
        Ok(v) => Some(GpuInfo { vendor: owned("NVIDIA"), name: string_from_chars(name), vram_mb: v }),
        Err(_) => None,
    }
}

/// What one `mem_info_vram_total` file tells the AMD probe.
#[derive(Debug)]
pub enum VramProbe {
    /// A GPU with this much VRAM was found; stop.
    Found(GpuInfo),
    /// No VRAM reported here; look at the next device.
    Skip,
    /// The file holds no number; give up the search.
    Abort,
}

/// Reads one `mem_info_vram_total` file (a byte count) of the AMD probe.
pub fn amd_vram_probe(contents: &str) -> (r: VramProbe)
    ensures
        match parse_u64_spec(trim(contents@)) {
            Err(_) => r matches VramProbe::Abort,
            Ok(bytes) => if bytes / 1024 / 1024 > 0 {
                r matches VramProbe::Found(g) && g.vendor@ == "AMD"@ && g.name@ == "AMD GPU"@
                    && g.vram_mb == bytes / 1024 / 1024
            } else {
                r matches VramProbe::Skip
            },
        },
{
    let text = chars_of(contents);
    let t = trim_chars(text.as_slice());
    match parse_u64(t.as_slice()) {
        Err(_) => VramProbe::Abort,
        Ok(bytes) => {
            let vram_mb = bytes / 1024 / 1024;
            if vram_mb > 0 {
                VramProbe::Found(GpuInfo { vendor: owned("AMD"), name: owned("AMD GPU"), vram_mb })
            } else {
                VramProbe::Skip
            }
        },
    }
}

} // verus!

verus! {

/// The headroom rule, read off the catalog fields: with a GPU the
/// recommendation needs at most half the VRAM (`vram_mb * 2 <= gpu
/// vram_mb`), without one at most a quarter of the RAM (`size_mb * 4 <=
/// ram_total_mb`); multilingual models are left out when only English is
/// wanted. The recommended model meets the rule, every model that meets it
/// is no larger, and none is recommended only when no model meets it.
pub proof fn lemma_recommend_headroom(hw: Hardware, catalog: Seq<Model>, english_only: bool)
    ensures
        ({
            let ok = |m: Model|
                !(english_only && m.language@ == "multi"@) && if hw.gpu is Some {
                    2 * m.vram_mb <= hw.gpu->Some_0.vram_mb
                } else {
                    4 * m.size_mb <= hw.ram_total_mb
                };
            let b = best_fit(hw, catalog, english_only);
            &&& b == -1 <==> forall|i: int| 0 <= i < catalog.len() ==> !ok(#[trigger] catalog[i])
            &&& b != -1 ==> {
                &&& 0 <= b < catalog.len()
                &&& ok(catalog[b])
                &&& forall|i: int|
                    0 <= i < catalog.len() && ok(#[trigger] catalog[i]) ==> catalog[i].size_mb
                        <= catalog[b].size_mb
            }
        }),
{
    lemma_best_fit_largest(hw, catalog, english_only);
}

} // verus!
