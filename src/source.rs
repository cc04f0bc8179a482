use vstd::prelude::*;

verus! {

/// Character offsets of every `'\n'` in `s`, in ascending order.
pub open spec fn newline_offsets(s: Seq<char>) -> Seq<int>
    decreases s.len(),
{
    if s.len() == 0 {
        Seq::empty()
    } else {
        let before = newline_offsets(s.drop_last());
        if s.last() == '\n' {
            before.push(s.len() - 1)
        } else {
            before
        }
    }
}

/// The newline offsets of `s` are ascending positions of `'\n'` in `s`, and
/// every `'\n'` of `s` is among them.
pub proof fn lemma_newline_offsets(s: Seq<char>)
    ensures
        forall|k: int|
            0 <= k < newline_offsets(s).len() ==> 0 <= #[trigger] newline_offsets(s)[k] < s.len()
                && s[newline_offsets(s)[k]] == '\n',
        forall|i: int, j: int|
            0 <= i < j < newline_offsets(s).len() ==> newline_offsets(s)[i]
                < newline_offsets(s)[j],
        forall|p: int|
            0 <= p < s.len() && s[p] == '\n' ==> newline_offsets(s).contains(p),
    decreases s.len(),
{
    if s.len() > 0 {
        let t = s.drop_last();
        lemma_newline_offsets(t);
        let nt = newline_offsets(t);
        assert forall|p: int| 0 <= p < s.len() && s[p] == '\n' implies newline_offsets(s).contains(p) by {
            if p < s.len() - 1 {
                assert(t[p] == '\n');
                let k = choose|k: int| 0 <= k < nt.len() && nt[k] == p;
                assert(newline_offsets(s)[k] == p);
            } else {
                assert(newline_offsets(s)[nt.len() as int] == p);
            }
        }
    }
}

/// The offsets in `v`, as integers.
pub open spec fn offsets_view(v: Seq<usize>) -> Seq<int> {
    v.map_values(|x: usize| x as int)
}

/// The character offset of each newline in `text`, in ascending order.
pub fn scan_newlines(text: &str) -> (r: Vec<usize>)
    ensures
        offsets_view(r@) == newline_offsets(text@),
        text@.len() <= usize::MAX,
{
    let n: usize = text.unicode_len();
    let mut r: Vec<usize> = Vec::new();
    let mut i: usize = 0;
    for c in it: text.chars()
        invariant
            n == text@.len(),
            it.seq() == text@,
            i == it.index(),
            offsets_view(r@) == newline_offsets(text@.subrange(0, i as int)),
    {
        proof {
            assert(text@.subrange(0, i + 1).drop_last() =~= text@.subrange(0, i as int));
        }
        if c == '\n' {
            r.push(i);
        }
        proof {
            assert(offsets_view(r@) =~= newline_offsets(text@.subrange(0, i + 1)));
        }
        i = i + 1;
    }
    proof {
        assert(text@.subrange(0, i as int) =~= text@);
    }
    r
}


/// The files among `names` that still have to be read when the files in
/// `known` are cached: each missing name once, in order of first appearance.
pub open spec fn files_pending(names: Seq<Seq<char>>, known: Set<Seq<char>>) -> Seq<Seq<char>>
    decreases names.len(),
{
    if names.len() == 0 {
        Seq::empty()
    } else {
        let before = files_pending(names.drop_last(), known);
        let name = names.last();
        if known.contains(name) || before.contains(name) {
            before
        } else {
            before.push(name)
        }
    }
}

/// The cache `m` after the text `text` of `filename` was offered to it: a
/// file that is cached already keeps its first text.
pub open spec fn cache_after_insert(
    m: Map<Seq<char>, Seq<char>>,
    filename: Seq<char>,
    text: Seq<char>,
) -> Map<Seq<char>, Seq<char>> {
    if m.contains_key(filename) {
        m
    } else {
        m.insert(filename, text)
    }
}

/// Whether `v` holds a string equal to `name`.
fn holds_name(v: &Vec<String>, name: &String) -> (r: bool)
    ensures
        r == v@.map_values(|s: String| s@).contains(name@),
{
    let ghost views = v@.map_values(|s: String| s@);
    let mut i: usize = 0;
    while i < v.len()
        invariant
            i <= v.len(),
            views == v@.map_values(|s: String| s@),
            forall|j: int| 0 <= j < i ==> views[j] != name@,
        decreases v.len() - i,
    {
        if v[i] == *name {
            assert(views[i as int] == name@);
            return true;
        }
        i = i + 1;
    }
    false
}

/// The text of one file together with the offsets of its newlines.
pub struct CachedSource {
    pub text: String,
    pub newlines: Vec<usize>,
}

impl CachedSource {
    /// `newlines` lists exactly the newline offsets of `text`, whose length
    /// is a `usize`.
    pub open spec fn wf(&self) -> bool {
        &&& offsets_view(self.newlines@) == newline_offsets(self.text@)
        &&& self.text@.len() <= usize::MAX
    }

    /// Takes ownership of a file's text and indexes its newlines.
    pub fn new(text: String) -> (r: CachedSource)
        ensures
            r.wf(),
            r.text@ == text@,
    {
        let newlines = scan_newlines(text.as_str());
        CachedSource { text, newlines }
    }
}

/// The files loaded so far in one rendering session, at most one entry per
/// file name. Entries are never replaced or removed.
pub struct SourceCache {
    names: Vec<String>,
    sources: Vec<CachedSource>,
    files: Ghost<Map<Seq<char>, Seq<char>>>,
}

impl View for SourceCache {
    type V = Map<Seq<char>, Seq<char>>;

    /// Each cached file name mapped to that file's text.
    closed spec fn view(&self) -> Map<Seq<char>, Seq<char>> {
        self.files@
    }
}

impl SourceCache {
    /// Names are distinct, each entry indexes its text, and the entries are
    /// exactly the files of the view.
    pub closed spec fn wf(&self) -> bool {
        &&& self.names.len() == self.sources.len()
        &&& forall|i: int, j: int|
            0 <= i < j < self.names.len() ==> self.names[i]@ != self.names[j]@
        &&& forall|i: int| 0 <= i < self.names.len() ==> self.sources[i].wf()
        &&& forall|i: int|
            0 <= i < self.names.len() ==> self.files@.contains_key(#[trigger] self.names[i]@)
                && self.files@[self.names[i]@] == self.sources[i].text@
        &&& forall|k: Seq<char>|
            self.files@.contains_key(k) ==> exists|i: int|
                0 <= i < self.names.len() && #[trigger] self.names[i]@ == k
    }

    /// An empty cache.
    pub fn new() -> (r: SourceCache)
        ensures
            r.wf(),
            r@ == Map::<Seq<char>, Seq<char>>::empty(),
    {
        SourceCache { names: Vec::new(), sources: Vec::new(), files: Ghost(Map::empty()) }
    }

    /// The position of `filename` among the entries, if it is cached.
    fn find(&self, filename: &String) -> (r: Option<usize>)
        requires
            self.wf(),
        ensures
            r is None <==> !self@.contains_key(filename@),
            r matches Some(i) ==> i < self.names.len() && self.names[i as int]@ == filename@,
    {
        let mut i: usize = 0;
        while i < self.names.len()
            invariant
                self.wf(),
                i <= self.names.len(),
                forall|j: int| 0 <= j < i ==> self.names[j]@ != filename@,
            decreases self.names.len() - i,
        {
            if self.names[i] == *filename {
                return Some(i);
            }
            i = i + 1;
        }
        None
    }

    /// Whether `filename` has been loaded in this session.
    pub fn contains(&self, filename: &String) -> (r: bool)
        requires
            self.wf(),
        ensures
            r == self@.contains_key(filename@),
    {
        self.find(filename).is_some()
    }

    /// The cached entry of `filename`, if there is one.
    pub fn get(&self, filename: &String) -> (r: Option<&CachedSource>)
        requires
            self.wf(),
        ensures
            r is None <==> !self@.contains_key(filename@),
            r matches Some(e) ==> e.wf() && e.text@ == self@[filename@],
    {
        match self.find(filename) {
            Some(i) => Some(&self.sources[i]),
            None => None,
        }
    }

    /// Stores the text of `filename` read from storage. A file that is
    /// already cached keeps its first text: the cache is never changed under
    /// the slices that were resolved against it.
    pub fn insert(&mut self, filename: String, text: String)
        requires
            old(self).wf(),
        ensures
            final(self).wf(),
            final(self)@ == cache_after_insert(old(self)@, filename@, text@),
    {
        if self.find(&filename).is_some() {
            assert(old(self)@.contains_key(filename@));
            return;
        }
        let entry = CachedSource::new(text);
        proof {
            self.files@ = self.files@.insert(filename@, entry.text@);
        }
        self.names.push(filename);
        self.sources.push(entry);
        proof {
            let n = self.names.len() - 1;
            assert forall|k: Seq<char>| self.files@.contains_key(k) implies exists|i: int|
                0 <= i < self.names.len() && #[trigger] self.names[i]@ == k by {
                if k == self.names[n]@ {
                    assert(self.names[n]@ == k);
                } else {
                    assert(old(self).files@.contains_key(k));
                    let i = choose|i: int| 0 <= i < old(self).names.len() && #[trigger] old(self).names[i]@ == k;
                    assert(self.names[i]@ == k);
                }
            }
        }
    }

    /// The files named in `filenames` that this cache does not hold yet,
    /// each once, in order of first appearance: what has to be read from
    /// storage before the spans naming them can be resolved.
    pub fn files_to_load(&self, filenames: &Vec<String>) -> (r: Vec<String>)
        requires
            self.wf(),
        ensures
            r@.map_values(|s: String| s@) == files_pending(
                filenames@.map_values(|s: String| s@),
                self@.dom(),
            ),
    {
        let ghost names = filenames@.map_values(|s: String| s@);
        let mut r: Vec<String> = Vec::new();
        let mut i: usize = 0;
        while i < filenames.len()
            invariant
                self.wf(),
                i <= filenames.len(),
                names == filenames@.map_values(|s: String| s@),
                r@.map_values(|s: String| s@) == files_pending(names.subrange(0, i as int), self@.dom()),
            decreases filenames.len() - i,
        {
            proof {
                assert(names.subrange(0, i + 1).drop_last() =~= names.subrange(0, i as int));
            }
            let name = &filenames[i];
            if !self.contains(name) && !holds_name(&r, name) {
                r.push(name.clone());
                assert(r@.map_values(|s: String| s@) =~= files_pending(names.subrange(0, i + 1), self@.dom()));
            }
            i = i + 1;
        }
        assert(names.subrange(0, i as int) =~= names);
        r
    }
}

/// Loading what is pending reads each file once: the pending files are
/// distinct, none is cached yet, each is named, every named file is cached
/// or pending, and once they are all cached nothing is pending any more.
pub proof fn lemma_each_file_read_once(names: Seq<Seq<char>>, known: Set<Seq<char>>)
    ensures
        files_pending(names, known).no_duplicates(),
        forall|f: Seq<char>|
            #[trigger] files_pending(names, known).contains(f) ==> !known.contains(f)
                && names.contains(f),
        forall|f: Seq<char>|
            names.contains(f) ==> known.contains(f) || #[trigger] files_pending(
                names,
                known,
            ).contains(f),
        files_pending(names, known.union(files_pending(names, known).to_set())) == Seq::<
            Seq<char>,
        >::empty(),
{
    lemma_pending_parts(names, known);
    lemma_nothing_pending(names, known.union(files_pending(names, known).to_set()));
}

proof fn lemma_pending_parts(names: Seq<Seq<char>>, known: Set<Seq<char>>)
    ensures
        files_pending(names, known).no_duplicates(),
        forall|f: Seq<char>|
            #[trigger] files_pending(names, known).contains(f) ==> !known.contains(f)
                && names.contains(f),
        forall|f: Seq<char>|
            names.contains(f) ==> known.contains(f) || #[trigger] files_pending(
                names,
                known,
            ).contains(f),
    decreases names.len(),
{
    if names.len() > 0 {
        let init = names.drop_last();
        lemma_pending_parts(init, known);
        let before = files_pending(init, known);
        let p = files_pending(names, known);
        assert forall|f: Seq<char>| #[trigger] p.contains(f) implies !known.contains(f)
            && names.contains(f) by {
            if before.contains(f) {
                let k = choose|k: int| 0 <= k < init.len() && init[k] == f;
                assert(names[k] == f);
            } else {
                assert(f == names.last());
                assert(names[names.len() - 1] == f);
            }
        }
        assert forall|f: Seq<char>| names.contains(f) implies known.contains(f) || #[trigger] p.contains(f) by {
            let k = choose|k: int| 0 <= k < names.len() && names[k] == f;
            if k < names.len() - 1 {
                assert(init[k] == f);
                if before.contains(f) {
                    let j = choose|j: int| 0 <= j < before.len() && before[j] == f;
                    assert(p[j] == f);
                }
            } else if !known.contains(f) && !before.contains(f) {
                assert(p[before.len() as int] == f);
            }
        }
    }
}

proof fn lemma_nothing_pending(names: Seq<Seq<char>>, known: Set<Seq<char>>)
    requires
        forall|f: Seq<char>| names.contains(f) ==> known.contains(f),
    ensures
        files_pending(names, known) == Seq::<Seq<char>>::empty(),
    decreases names.len(),
{
    if names.len() > 0 {
        let init = names.drop_last();
        assert forall|f: Seq<char>| init.contains(f) implies known.contains(f) by {
            let k = choose|k: int| 0 <= k < init.len() && init[k] == f;
            assert(names[k] == f);
        }
        lemma_nothing_pending(init, known);
        assert(names[names.len() - 1] == names.last());
    }
}

/// Offering a file to the cache never changes the text of a file that was
/// already cached.
pub proof fn lemma_insert_keeps_cached(
    m: Map<Seq<char>, Seq<char>>,
    filename: Seq<char>,
    text: Seq<char>,
    other: Seq<char>,
)
    requires
        m.contains_key(other),
    ensures
        cache_after_insert(m, filename, text).contains_key(other),
        cache_after_insert(m, filename, text)[other] == m[other],
{
}

} // verus!
