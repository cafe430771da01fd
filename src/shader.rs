//! Shader programs by name, and the pairing of stage sources by file name.
use vstd::prelude::*;

use crate::model::report_missing;
use crate::names::{NameMap, WarnedNames};

verus! {

broadcast use vstd::string::group_string_axioms;

/// A shader stage that a source file provides.
#[derive(Clone, Copy, PartialEq, Eq, Debug, Structural)]
pub enum Stage {
    Vertex,
    Fragment,
}

/// The stage a file extension marks: `vert` or `vs` for vertex sources, `frag`
/// or `fs` for fragment sources.
pub open spec fn stage_spec(ext: Seq<char>) -> Option<Stage> {
    if ext == "vert"@ || ext == "vs"@ {
        Some(Stage::Vertex)
    } else if ext == "frag"@ || ext == "fs"@ {
        Some(Stage::Fragment)
    } else {
        None
    }
}

/// The stage the extension `ext` marks, if any.
pub fn stage_of(ext: &str) -> (r: Option<Stage>)
    ensures
        r == stage_spec(ext@),
{
    let e = ext.to_string();
    if e == "vert".to_string() || e == "vs".to_string() {
        Some(Stage::Vertex)
    } else if e == "frag".to_string() || e == "fs".to_string() {
        Some(Stage::Fragment)
    } else {
        None
    }
}

/// A source file found in a shader directory: its name without extension, its
/// extension and its text.
#[derive(Clone, PartialEq, Eq, Debug)]
pub struct ShaderFile {
    pub stem: String,
    pub ext: String,
    pub source: String,
}

/// The sources of one stage by stem; a later file replaces an earlier one.
pub open spec fn sources_of(files: Seq<ShaderFile>, stage: Stage) -> Map<Seq<char>, Seq<char>>
    decreases files.len(),
{
    if files.len() == 0 {
        Map::empty()
    } else {
        let m = sources_of(files.drop_last(), stage);
        let f = files.last();
        if stage_spec(f.ext@) == Some(stage) {
            m.insert(f.stem@, f.source@)
        } else {
            m
        }
    }
}

/// A name with both stages, and the two sources.
#[derive(Clone, PartialEq, Eq, Debug)]
pub struct SourcePair {
    pub name: String,
    pub vertex: String,
    pub fragment: String,
}

/// Stage sources matched by name, and the names that have only one stage.
#[derive(Clone, PartialEq, Eq, Debug)]
pub struct Pairing {
    pub pairs: Vec<SourcePair>,
    pub lone_vertex: Vec<String>,
    pub lone_fragment: Vec<String>,
}

/// `names` lists, each once, the keys of `a` that are not keys of `b`.
pub open spec fn lists_difference(
    names: Seq<String>,
    a: Map<Seq<char>, Seq<char>>,
    b: Map<Seq<char>, Seq<char>>,
) -> bool {
    &&& forall|i: int|
        0 <= i < names.len() ==> a.contains_key(#[trigger] names[i]@) && !b.contains_key(names[i]@)
    &&& forall|k: Seq<char>|
        a.contains_key(k) && !b.contains_key(k) ==> exists|i: int|
            0 <= i < names.len() && #[trigger] names[i]@ == k
    &&& forall|i: int, j: int| 0 <= i < j < names.len() ==> names[i]@ != names[j]@
}

/// `p` is the pairing of `files`.
pub open spec fn pairs_files(p: Pairing, files: Seq<ShaderFile>) -> bool {
    let v = sources_of(files, Stage::Vertex);
    let f = sources_of(files, Stage::Fragment);
    &&& forall|i: int|
        0 <= i < p.pairs@.len() ==> {
            let q = #[trigger] p.pairs@[i];
            &&& v.contains_key(q.name@) && f.contains_key(q.name@)
            &&& q.vertex@ == v[q.name@] && q.fragment@ == f[q.name@]
        }
    &&& forall|k: Seq<char>|
        v.contains_key(k) && f.contains_key(k) ==> exists|i: int|
            0 <= i < p.pairs@.len() && #[trigger] p.pairs@[i].name@ == k
    &&& forall|i: int, j: int| 0 <= i < j < p.pairs@.len() ==> p.pairs@[i].name@ != p.pairs@[j].name@
    &&& lists_difference(p.lone_vertex@, v, f)
    &&& lists_difference(p.lone_fragment@, f, v)
}

/// The sources of `stage` among `files`, by stem.
fn collect_stage(files: &Vec<ShaderFile>, stage: Stage) -> (r: NameMap<String>)
    ensures
        r.wf(),
        r@.dom() == sources_of(files@, stage).dom(),
        forall|k: Seq<char>| #[trigger] r@.contains_key(k) ==> r@[k]@ == sources_of(files@, stage)[k],
{
    let mut m: NameMap<String> = NameMap::new();
    let mut i: usize = 0;
    while i < files.len()
        invariant
            i <= files@.len(),
            m.wf(),
            m@.dom() == sources_of(files@.subrange(0, i as int), stage).dom(),
            forall|k: Seq<char>| #[trigger] m@.contains_key(k) ==> m@[k]@ == sources_of(
                files@.subrange(0, i as int),
                stage,
            )[k],
        decreases files@.len() - i,
    {
        let f = &files[i];
        assert(files@.subrange(0, i + 1).drop_last() =~= files@.subrange(0, i as int));
        if stage_of(f.ext.as_str()) == Some(stage) {
            m.insert(f.stem.as_str(), f.source.clone());
        }
        assert(m@.dom() =~= sources_of(files@.subrange(0, i + 1), stage).dom());
        i += 1;
    }
    assert(files@.subrange(0, files@.len() as int) =~= files@);
    m
}

/// The names of `a` that `b` lacks, in `a`'s order.
fn missing_from(a: &NameMap<String>, b: &NameMap<String>) -> (r: Vec<String>)
    requires
        a.wf(),
        b.wf(),
    ensures
        forall|i: int|
            0 <= i < r@.len() ==> a@.contains_key(#[trigger] r@[i]@) && !b@.contains_key(r@[i]@),
        forall|k: Seq<char>|
            a@.contains_key(k) && !b@.contains_key(k) ==> exists|i: int|
                0 <= i < r@.len() && #[trigger] r@[i]@ == k,
        forall|i: int, j: int| 0 <= i < j < r@.len() ==> r@[i]@ != r@[j]@,
{
    proof {
        a.lemma_names();
    }
    let mut out: Vec<String> = Vec::new();
    let ghost idx: Seq<int> = Seq::empty();
    let mut i: usize = 0;
    while i < a.len()
        invariant
            a.wf(),
            b.wf(),
            a.names().no_duplicates(),
            forall|k: Seq<char>| #[trigger] a@.contains_key(k) <==> a.names().contains(k),
            i <= a.names().len(),
            idx.len() == out@.len(),
            forall|t: int|
                0 <= t < idx.len() ==> 0 <= #[trigger] idx[t] < i && out@[t]@ == a.names()[idx[t]],
            forall|t: int, u: int| 0 <= t < u < idx.len() ==> idx[t] < idx[u],
            forall|t: int|
                0 <= t < out@.len() ==> a@.contains_key(#[trigger] out@[t]@) && !b@.contains_key(
                    out@[t]@,
                ),
            forall|j: int|
                0 <= j < i && !b@.contains_key(#[trigger] a.names()[j]) ==> exists|t: int|
                    0 <= t < out@.len() && out@[t]@ == a.names()[j],
        decreases a.names().len() - i,
    {
        let name = a.key_at(i);
        assert(a.names().contains(name@));
        let ghost prev = out@;
        if !b.contains(name.as_str()) {
            out.push(name.clone());
            proof {
                idx = idx.push(i as int);
                assert(out@[out@.len() - 1]@ == a.names()[i as int]);
            }
        }
        proof {
            assert forall|j: int|
                0 <= j < i + 1 && !b@.contains_key(#[trigger] a.names()[j]) implies exists|t: int|
                0 <= t < out@.len() && out@[t]@ == a.names()[j] by {
                if j < i {
                    let t = choose|t: int| 0 <= t < prev.len() && prev[t]@ == a.names()[j];
                    assert(out@[t] == prev[t]);
                } else {
                    assert(out@[out@.len() - 1]@ == a.names()[j]);
                }
            }
        }
        i += 1;
    }
    assert forall|k: Seq<char>| a@.contains_key(k) && !b@.contains_key(k) implies exists|t: int|
        0 <= t < out@.len() && #[trigger] out@[t]@ == k by {
        let j = choose|j: int| 0 <= j < a.names().len() && a.names()[j] == k;
        assert(!b@.contains_key(a.names()[j]));
    }
    assert forall|t: int, u: int| 0 <= t < u < out@.len() implies out@[t]@ != out@[u]@ by {
        assert(idx[t] < idx[u]);
    }
    out
}

/// Matches vertex and fragment sources by file name; names with one stage only are
/// listed apart.
pub fn pair_sources(files: &Vec<ShaderFile>) -> (r: Pairing)
    ensures
        pairs_files(r, files@),
{
    let vs = collect_stage(files, Stage::Vertex);
    let fs = collect_stage(files, Stage::Fragment);
    let ghost v = sources_of(files@, Stage::Vertex);
    let ghost f = sources_of(files@, Stage::Fragment);
    proof {
        vs.lemma_names();
    }
    let mut pairs: Vec<SourcePair> = Vec::new();
    let ghost idx: Seq<int> = Seq::empty();
    let mut i: usize = 0;
    while i < vs.len()
        invariant
            vs.wf(),
            fs.wf(),
            v == sources_of(files@, Stage::Vertex),
            f == sources_of(files@, Stage::Fragment),
            vs@.dom() == v.dom(),
            fs@.dom() == f.dom(),
            forall|k: Seq<char>| #[trigger] vs@.contains_key(k) ==> vs@[k]@ == v[k],
            forall|k: Seq<char>| #[trigger] fs@.contains_key(k) ==> fs@[k]@ == f[k],
            vs.names().no_duplicates(),
            forall|k: Seq<char>| #[trigger] vs@.contains_key(k) <==> vs.names().contains(k),
            i <= vs.names().len(),
            idx.len() == pairs@.len(),
            forall|t: int|
                0 <= t < idx.len() ==> 0 <= #[trigger] idx[t] < i && pairs@[t].name@
                    == vs.names()[idx[t]],
            forall|t: int, u: int| 0 <= t < u < idx.len() ==> idx[t] < idx[u],
            forall|t: int|
                0 <= t < pairs@.len() ==> {
                    let q = #[trigger] pairs@[t];
                    &&& v.contains_key(q.name@) && f.contains_key(q.name@)
                    &&& q.vertex@ == v[q.name@] && q.fragment@ == f[q.name@]
                },
            forall|j: int|
                0 <= j < i && f.contains_key(#[trigger] vs.names()[j]) ==> exists|t: int|
                    0 <= t < pairs@.len() && pairs@[t].name@ == vs.names()[j],
        decreases vs.names().len() - i,
    {
        let name = vs.key_at(i);
        assert(vs.names().contains(name@));
        let ghost prev = pairs@;
        match fs.get(name.as_str()) {
            Some(frag) => {
                let vert = vs.value_at(i);
                pairs.push(SourcePair { name: name.clone(), vertex: vert.clone(), fragment: frag.clone() });
                proof {
                    idx = idx.push(i as int);
                    assert(pairs@[pairs@.len() - 1].name@ == vs.names()[i as int]);
                }
            },
            None => {},
        }
        proof {
            assert forall|j: int|
                0 <= j < i + 1 && f.contains_key(#[trigger] vs.names()[j]) implies exists|t: int|
                0 <= t < pairs@.len() && pairs@[t].name@ == vs.names()[j] by {
                if j < i {
                    let t = choose|t: int| 0 <= t < prev.len() && prev[t].name@ == vs.names()[j];
                    assert(pairs@[t] == prev[t]);
                } else {
                    assert(fs@.contains_key(vs.names()[j]));
                    assert(pairs@[pairs@.len() - 1].name@ == vs.names()[j]);
                }
            }
        }
        i += 1;
    }
    assert forall|t: int, u: int| 0 <= t < u < pairs@.len() implies pairs@[t].name@ != pairs@[u].name@ by {
        assert(idx[t] < idx[u]);
    }
    let lone_vertex = missing_from(&vs, &fs);
    let lone_fragment = missing_from(&fs, &vs);
    assert forall|k: Seq<char>| vs@.contains_key(k) == v.contains_key(k) && fs@.contains_key(k) == f.contains_key(k) by {
        assert(vs@.dom().contains(k) == v.dom().contains(k));
        assert(fs@.dom().contains(k) == f.dom().contains(k));
    }
    let r = Pairing { pairs, lone_vertex, lone_fragment };
    assert forall|k: Seq<char>| v.contains_key(k) && f.contains_key(k) implies exists|t: int|
        0 <= t < r.pairs@.len() && #[trigger] r.pairs@[t].name@ == k by {
        assert(vs@.contains_key(k));
        let j = choose|j: int| 0 <= j < vs.names().len() && vs.names()[j] == k;
        assert(f.contains_key(vs.names()[j]));
        let t = choose|t: int| 0 <= t < pairs@.len() && pairs@[t].name@ == vs.names()[j];
        assert(r.pairs@[t].name@ == k);
    }
    r
}


/// Linked shader programs by name, and the names asked for but not found.
pub struct ShaderManager {
    programs: NameMap<u32>,
    missing: WarnedNames,
}

impl ShaderManager {
    pub closed spec fn wf(&self) -> bool {
        self.programs.wf() && self.missing.wf()
    }

    /// The program handles by name.
    pub closed spec fn programs(&self) -> Map<Seq<char>, u32> {
        self.programs@
    }

    /// The names already reported missing.
    pub closed spec fn warned(&self) -> Set<Seq<char>> {
        self.missing@
    }

    /// An empty manager.
    pub fn new() -> (r: Self)
        ensures
            r.wf(),
            r.programs() == Map::<Seq<char>, u32>::empty(),
            r.warned() == Set::<Seq<char>>::empty(),
    {
        let r = ShaderManager { programs: NameMap::new(), missing: WarnedNames::new() };
        assert(r.warned() =~= Set::<Seq<char>>::empty());
        r
    }

    /// Registers the linked program `program` as `name`, replacing any earlier one.
    pub fn add_program(&mut self, name: &str, program: u32)
        requires
            old(self).wf(),
        ensures
            final(self).wf(),
            final(self).programs() == old(self).programs().insert(name@, program),
            final(self).warned() == old(self).warned(),
    {
        self.programs.insert(name, program);
    }

    /// The program called `name`, and whether a warning is due because it is
    /// missing and was not reported before.
    pub fn get(&mut self, name: &str) -> (r: (Option<u32>, bool))
        requires
            old(self).wf(),
        ensures
            final(self).wf(),
            final(self).programs() == old(self).programs(),
            r.0 is Some == old(self).programs().contains_key(name@),
            r.0 is Some ==> r.0->0 == old(self).programs()[name@],
            (r.1, final(self).warned()) == report_missing(
                old(self).programs().contains_key(name@),
                old(self).warned(),
                name@,
            ),
    {
        match self.programs.get(name) {
            Some(p) => (Some(*p), false),
            None => {
                (None, self.missing.first_report(name))
            },
        }
    }
}

/// Textures by name.
pub struct TextureManager<T> {
    textures: NameMap<T>,
}

impl<T> TextureManager<T> {
    pub closed spec fn wf(&self) -> bool {
        self.textures.wf()
    }

    /// The textures by name.
    pub closed spec fn textures(&self) -> Map<Seq<char>, T> {
        self.textures@
    }

    /// An empty manager.
    pub fn new() -> (r: Self)
        ensures
            r.wf(),
            r.textures() == Map::<Seq<char>, T>::empty(),
    {
        TextureManager { textures: NameMap::new() }
    }

    /// Registers `texture` as `name`, replacing any earlier one.
    pub fn add(&mut self, name: &str, texture: T)
        requires
            old(self).wf(),
        ensures
            final(self).wf(),
            final(self).textures() == old(self).textures().insert(name@, texture),
    {
        self.textures.insert(name, texture);
    }

    /// The texture called `name`, if any.
    pub fn get(&self, name: &str) -> (r: Option<&T>)
        requires
            self.wf(),
        ensures
            r is Some == self.textures().contains_key(name@),
            r is Some ==> *r->0 == self.textures()[name@],
    {
        self.textures.get(name)
    }
}

} // verus!
