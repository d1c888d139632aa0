use vstd::prelude::*;

use crate::config::SoundfontInitOptions;

verus! {

/// A configuration stored in a file of its own.
pub trait ConfigPath {
    /// The name of the configuration's file.
    fn filename() -> String;
}

/// A soundfont of the soundfont list: its path, whether it is enabled, and
/// the options to load it with.
#[derive(Debug, Clone)]
pub struct SFDescriptor {
    pub path: String,
    pub enabled: bool,
    pub options: SoundfontInitOptions,
}

impl Default for SFDescriptor {
    /// No path, enabled, default options.
    fn default() -> (r: Self)
        ensures
            r.path@ == Seq::<char>::empty(),
            r.enabled,
            r.options == SoundfontInitOptions::spec_default(),
    {
        SFDescriptor { path: String::new(), enabled: true, options: SoundfontInitOptions::default() }
    }
}

impl SFDescriptor {
    /// The path to load, if the soundfont is to be loaded: it is enabled
    /// and its file exists (`exists` is the result of that check).
    pub fn path(&self, exists: bool) -> (r: Option<String>)
        ensures
            r matches Some(p) ==> p@ == self.path@,
            r is Some <==> (exists && self.enabled),
    {
        if exists && self.enabled {
            Some(self.path.clone())
        } else {
            None
        }
    }
}

/// The list of soundfonts to load, in order.
#[derive(Debug, Clone)]
pub struct SFList {
    pub soundfonts: Vec<SFDescriptor>,
}

impl Default for SFList {
    /// One default soundfont entry.
    fn default() -> (r: Self)
        ensures
            r.soundfonts@.len() == 1,
            r.soundfonts@[0].path@ == Seq::<char>::empty(),
            r.soundfonts@[0].enabled,
            r.soundfonts@[0].options == SoundfontInitOptions::spec_default(),
    {
        let mut soundfonts: Vec<SFDescriptor> = Vec::new();
        soundfonts.push(SFDescriptor::default());
        SFList { soundfonts }
    }
}

/// The entries of `sfs` that are loaded, given which files exist
/// (`exists[i]` for entry `i`): those enabled whose file exists, in order.
pub open spec fn loaded_entries(sfs: Seq<SFDescriptor>, exists: Seq<bool>) -> Seq<int>
    decreases sfs.len(),
{
    if sfs.len() == 0 {
        Seq::empty()
    } else {
        let rest = loaded_entries(sfs.drop_last(), exists.take(sfs.len() - 1));
        if exists[sfs.len() - 1] && sfs.last().enabled {
            rest.push(sfs.len() - 1)
        } else {
            rest
        }
    }
}

impl SFList {
    /// The paths and load options of the soundfonts to load, in list order:
    /// those enabled whose file exists (`exists[i]` tells for entry `i`).
    pub fn soundfonts_to_load(&self, exists: &Vec<bool>) -> (r: Vec<(String, SoundfontInitOptions)>)
        requires
            exists@.len() == self.soundfonts@.len(),
        ensures
            r@.len() == loaded_entries(self.soundfonts@, exists@).len(),
            forall|j: int|
                0 <= j < r@.len() ==> {
                    let i = loaded_entries(self.soundfonts@, exists@)[j];
                    &&& 0 <= i < self.soundfonts@.len()
                    &&& (#[trigger] r@[j]).0@ == self.soundfonts@[i].path@
                    &&& r@[j].1 == self.soundfonts@[i].options
                },
    {
        let mut out: Vec<(String, SoundfontInitOptions)> = Vec::new();
        let mut i: usize = 0;
        while i < self.soundfonts.len()
            invariant
                0 <= i <= self.soundfonts@.len(),
                exists@.len() == self.soundfonts@.len(),
                out@.len() == loaded_entries(self.soundfonts@.take(i as int), exists@.take(i as int)).len(),
                forall|j: int|
                    0 <= j < out@.len() ==> {
                        let k = loaded_entries(self.soundfonts@.take(i as int), exists@.take(i as int))[j];
                        &&& 0 <= k < i
                        &&& (#[trigger] out@[j]).0@ == self.soundfonts@[k].path@
                        &&& out@[j].1 == self.soundfonts@[k].options
                    },
            decreases self.soundfonts@.len() - i,
        {
            let ghost before = loaded_entries(self.soundfonts@.take(i as int), exists@.take(i as int));
            proof {
                let t = self.soundfonts@.take(i + 1);
                assert(t.drop_last() =~= self.soundfonts@.take(i as int));
                assert(exists@.take(i + 1).take(i as int) =~= exists@.take(i as int));
                assert(t.last() == self.soundfonts@[i as int]);
                assert(exists@.take(i + 1)[i as int] == exists@[i as int]);
            }
            let sf = &self.soundfonts[i];
            if let Some(p) = sf.path(exists[i]) {
                out.push((p, sf.options));
            }
            i = i + 1;
        }
        proof {
            assert(self.soundfonts@.take(self.soundfonts@.len() as int) =~= self.soundfonts@);
            assert(exists@.take(exists@.len() as int) =~= exists@);
        }
        out
    }
}

impl ConfigPath for SFList {
    /// `soundfonts.json`.
    fn filename() -> (r: String)
        ensures
            r@ == "soundfonts.json"@,
    {
        "soundfonts.json".to_owned()
    }
}

} // verus!
