//! The resource resolver and the render cache: maps a page key to the source
//! file it names, decides existence, and serves rendered HTML fragments either
//! from a process-lifetime cache or from a fresh render outcome the caller
//! hands in, governed by the live-mode freshness policy. The renderer itself
//! runs outside the library (it can abort on exotic input), and only where
//! `needs_render` says the policy will consume its outcome.

use vstd::prelude::*;

verus! {

/// A failed render of a source document; reported to the composer, never a
/// process abort.
#[derive(Debug)]
pub enum LoadError {
    RenderFailure,
}

/// The markup file extension appended to page keys that lack it.
pub open spec fn md_ext() -> Seq<char> {
    ".md"@
}

/// Whether `key` already ends with the markup extension.
pub open spec fn ends_with_md(key: Seq<char>) -> bool {
    key.len() >= 3 && key.subrange(key.len() - 3, key.len() as int) == md_ext()
}

/// The source file named by a page key: the configured root document for the
/// empty key, otherwise the key itself with the markup extension appended if
/// absent.
pub open spec fn resolved_name(root: Seq<char>, key: Seq<char>) -> Seq<char> {
    if key.len() == 0 {
        root
    } else if ends_with_md(key) {
        key
    } else {
        key + md_ext()
    }
}

/// Index just past the first line of `s`: its first `'\n'`, or its end.
pub open spec fn line_break(s: Seq<char>) -> int {
    if crate::text::find_char(s, '\n') == -1 {
        s.len() as int
    } else {
        crate::text::find_char(s, '\n')
    }
}

/// A line with a trailing carriage return stripped, as `str::lines` does.
pub open spec fn strip_cr(line: Seq<char>) -> Seq<char> {
    if line.len() > 0 && line.last() == '\r' {
        line.drop_last()
    } else {
        line
    }
}

/// The fragment re-indented for embedding: every line prefixed with one
/// indentation unit and terminated with a newline.
pub open spec fn indent_of(s: Seq<char>) -> Seq<char>
    decreases s.len(),
    via indent_of_decreases
{
    if s.len() == 0 {
        Seq::empty()
    } else {
        let b = line_break(s);
        let rest = if b < s.len() {
            s.subrange(b + 1, s.len() as int)
        } else {
            Seq::<char>::empty()
        };
        "    "@ + strip_cr(s.subrange(0, b)) + "\n"@ + indent_of(rest)
    }
}

#[via_fn]
proof fn indent_of_decreases(s: Seq<char>) {
    crate::text::lemma_find_char_spec(s, '\n');
}

/// The fixed title substituted when derivation fails.
pub open spec fn default_title() -> Seq<char> {
    "Default title"@
}

/// The display title of source text: the part of the first line after its
/// first space; the fixed default when the source has no line or the first
/// line has no space.
pub open spec fn title_of(source: Seq<char>) -> Seq<char> {
    if source.len() == 0 {
        default_title()
    } else {
        let line = strip_cr(source.subrange(0, line_break(source)));
        let sp = crate::text::find_char(line, ' ');
        if sp == -1 {
            default_title()
        } else {
            line.subrange(sp + 1, line.len() as int)
        }
    }
}

/// The map denoted by an association list, later entries shadowing earlier
/// ones (the cache keeps keys unique, so no shadowing ever arises).
pub open spec fn assoc_view(entries: Seq<(String, String)>) -> Map<Seq<char>, Seq<char>>
    decreases entries.len(),
{
    if entries.len() == 0 {
        Map::empty()
    } else {
        assoc_view(entries.drop_last()).insert(entries.last().0@, entries.last().1@)
    }
}

/// No two entries share a key.
pub open spec fn keys_unique(entries: Seq<(String, String)>) -> bool {
    forall|i: int, j: int|
        0 <= i < j < entries.len() ==> entries[i].0@ != entries[j].0@
}

proof fn lemma_assoc_contains(entries: Seq<(String, String)>, k: Seq<char>)
    ensures
        assoc_view(entries).contains_key(k) <==> exists|i: int|
            0 <= i < entries.len() && entries[i].0@ == k,
    decreases entries.len(),
{
    if entries.len() > 0 {
        lemma_assoc_contains(entries.drop_last(), k);
        if entries.last().0@ == k {
            assert(entries[entries.len() - 1].0@ == k);
        } else if assoc_view(entries).contains_key(k) {
            let i = choose|i: int| 0 <= i < entries.drop_last().len() && entries.drop_last()[i].0@
                == k;
            assert(entries[i].0@ == k);
        } else {
            assert(forall|i: int|
                0 <= i < entries.drop_last().len() ==> entries.drop_last()[i] == entries[i]);
        }
    }
}

proof fn lemma_assoc_get(entries: Seq<(String, String)>, i: int)
    requires
        keys_unique(entries),
        0 <= i < entries.len(),
    ensures
        assoc_view(entries).contains_key(entries[i].0@),
        assoc_view(entries)[entries[i].0@] == entries[i].1@,
    decreases entries.len(),
{
    if i < entries.len() - 1 {
        assert(forall|a: int, b: int|
            0 <= a < b < entries.drop_last().len() ==> entries.drop_last()[a]
                == entries[a] && entries.drop_last()[b] == entries[b]);
        lemma_assoc_get(entries.drop_last(), i);
        assert(entries.last().0@ != entries[i].0@);
    }
}

proof fn lemma_assoc_update(entries: Seq<(String, String)>, i: int, e: (String, String))
    requires
        keys_unique(entries),
        0 <= i < entries.len(),
        e.0@ == entries[i].0@,
    ensures
        keys_unique(entries.update(i, e)),
        assoc_view(entries.update(i, e)) =~= assoc_view(entries).insert(e.0@, e.1@),
    decreases entries.len(),
{
    let updated = entries.update(i, e);
    assert(forall|a: int| 0 <= a < entries.len() && a != i ==> updated[a] == entries[a]);
    if i == entries.len() - 1 {
        assert(updated.drop_last() =~= entries.drop_last());
    } else {
        assert(updated.drop_last() =~= entries.drop_last().update(i, e));
        assert(forall|a: int, b: int|
            0 <= a < b < entries.drop_last().len() ==> entries.drop_last()[a]
                == entries[a] && entries.drop_last()[b] == entries[b]);
        lemma_assoc_update(entries.drop_last(), i, e);
        assert(updated.last() == entries.last());
        assert(entries.last().0@ != e.0@);
    }
}

/// The render cache and resolver. Owns the page-keyed mapping from page key
/// to rendered fragment; nothing else mutates it. In live mode every request
/// regenerates the entry before serving it.
pub struct MarkdownLoader {
    cache: Vec<(String, String)>,
    root_path: String,
    live_mode: bool,
    renders: Ghost<nat>,
}

impl MarkdownLoader {
    /// The cached fragments, keyed by page key.
    pub closed spec fn cache_map(&self) -> Map<Seq<char>, Seq<char>> {
        assoc_view(self.cache@)
    }

    /// The configured root document path.
    pub closed spec fn root(&self) -> Seq<char> {
        self.root_path@
    }

    /// Whether every request regenerates the cache entry.
    pub closed spec fn live(&self) -> bool {
        self.live_mode
    }

    /// How many render outcomes the freshness policy has demanded and
    /// consumed: one for each call that went past the cache.
    pub closed spec fn render_count(&self) -> nat {
        self.renders@
    }

    /// The cache never holds two entries for one key.
    pub closed spec fn wf(&self) -> bool {
        keys_unique(self.cache@)
    }

    pub fn new(live_mode: bool) -> (r: Self)
        ensures
            r.wf(),
            r.cache_map() == Map::<Seq<char>, Seq<char>>::empty(),
            r.root() == Seq::<char>::empty(),
            r.live() == live_mode,
            r.render_count() == 0,
    {
        MarkdownLoader {
            cache: Vec::new(),
            root_path: String::new(),
            live_mode,
            renders: Ghost(0),
        }
    }

    /// Configures the root document path served for the empty page key.
    pub fn set_path(&mut self, path: String)
        ensures
            final(self).root() == path@,
            final(self).cache_map() == old(self).cache_map(),
            final(self).live() == old(self).live(),
            final(self).render_count() == old(self).render_count(),
            final(self).wf() == old(self).wf(),
    {
        self.root_path = path;
    }

    /// Whether live mode is on.
    pub fn live_mode(&self) -> (r: bool)
        ensures
            r == self.live(),
    {
        self.live_mode
    }

    /// The source file a page key names.
    pub fn resolve(&self, page_name: &str) -> (r: String)
        ensures
            r@ == resolved_name(self.root(), page_name@),
    {
        let n = page_name.unicode_len();
        if n == 0 {
            self.root_path.clone()
        } else {
            proof {
                reveal_strlit(".md");
            }
            let has_ext = n >= 3 && page_name.get_char(n - 3) == '.' && page_name.get_char(n - 2)
                == 'm' && page_name.get_char(n - 1) == 'd';
            if has_ext {
                proof {
                    assert(page_name@.subrange(n - 3, n as int) =~= md_ext());
                }
                page_name.to_owned()
            } else {
                proof {
                    if n >= 3 && page_name@.subrange(n - 3, n as int) == md_ext() {
                        assert(page_name@[n - 3] == page_name@.subrange(n - 3, n as int)[0]);
                        assert(page_name@[n - 2] == page_name@.subrange(n - 3, n as int)[1]);
                        assert(page_name@[n - 1] == page_name@.subrange(n - 3, n as int)[2]);
                        assert(false);
                    }
                }
                let mut r = page_name.to_owned();
                r.append(".md");
                r
            }
        }
    }

    fn lookup(&self, key: &String) -> (r: Option<String>)
        requires
            self.wf(),
        ensures
            match r {
                Some(v) => self.cache_map().contains_key(key@) && v@ == self.cache_map()[key@],
                None => !self.cache_map().contains_key(key@),
            },
    {
        let n = self.cache.len();
        let mut i: usize = 0;
        while i < n
            invariant
                n == self.cache@.len(),
                i <= n,
                self.wf(),
                forall|j: int| 0 <= j < i ==> self.cache@[j].0@ != key@,
            decreases n - i,
        {
            let entry = &self.cache[i];
            if entry.0 == *key {
                proof {
                    lemma_assoc_get(self.cache@, i as int);
                }
                return Some(entry.1.clone());
            }
            i = i + 1;
        }
        proof {
            lemma_assoc_contains(self.cache@, key@);
        }
        None
    }

    fn store(&mut self, key: String, value: String)
        requires
            old(self).wf(),
        ensures
            final(self).wf(),
            final(self).cache_map() =~= old(self).cache_map().insert(key@, value@),
            final(self).root() == old(self).root(),
            final(self).live() == old(self).live(),
            final(self).render_count() == old(self).render_count(),
    {
        let n = self.cache.len();
        let mut i: usize = 0;
        while i < n
            invariant
                n == self.cache@.len(),
                i <= n,
                self.wf(),
                *self == *old(self),
                forall|j: int| 0 <= j < i ==> self.cache@[j].0@ != key@,
            decreases n - i,
        {
            let hit = self.cache[i].0 == key;
            if hit {
                let ghost entries = self.cache@;
                self.cache[i] = (key, value);
                proof {
                    lemma_assoc_update(entries, i as int, self.cache@[i as int]);
                }
                return ;
            }
            i = i + 1;
        }
        let ghost entries = self.cache@;
        self.cache.push((key, value));
        proof {
            assert(self.cache@.drop_last() =~= entries);
            lemma_assoc_contains(entries, self.cache@.last().0@);
            assert(forall|a: int, b: int|
                0 <= a < b < self.cache@.len() ==> self.cache@[a].0@ != self.cache@[b].0@) by {
                assert(forall|a: int|
                    0 <= a < entries.len() ==> self.cache@[a] == entries[a]);
            }
        }
    }

    /// Whether a call for this key will consult a fresh render outcome:
    /// always in live mode, otherwise exactly on a cache miss. The caller
    /// runs the renderer (isolated, since the markup parser can abort on
    /// exotic input and must not take the library down) only when this
    /// says so, and hands the outcome to `load_page`.
    pub fn needs_render(&self, page_name: &str) -> (r: bool)
        requires
            self.wf(),
        ensures
            r == (self.live() || !self.cache_map().contains_key(page_name@)),
    {
        if self.live_mode {
            true
        } else {
            let key = page_name.to_owned();
            let cached = self.lookup(&key);
            cached.is_none()
        }
    }

    /// Returns the rendered HTML fragment for the page key, re-indented for
    /// embedding. Off live mode a fragment the cache holds is served as is
    /// and `rendered` is never consulted; otherwise `rendered` — the outcome
    /// of the caller's render of the resolved source file — is consumed: on
    /// `Some` the cache entry is created or overwritten before the call
    /// returns, on `None` the failure is reported and the cache is left
    /// untouched, never an abort.
    pub fn load_page(&mut self, page_name: &str, rendered: Option<String>) -> (r: Result<
        String,
        LoadError,
    >)
        requires
            old(self).wf(),
        ensures
            final(self).wf(),
            final(self).root() == old(self).root(),
            final(self).live() == old(self).live(),
            (!old(self).live() && old(self).cache_map().contains_key(page_name@)) ==> {
                &&& final(self).cache_map() == old(self).cache_map()
                &&& final(self).render_count() == old(self).render_count()
                &&& match r {
                    Ok(frag) => frag@ == indent_of(old(self).cache_map()[page_name@]),
                    Err(_) => false,
                }
            },
            (old(self).live() || !old(self).cache_map().contains_key(page_name@)) ==> {
                &&& final(self).render_count() == old(self).render_count() + 1
                &&& match rendered {
                    Some(html) => match r {
                        Ok(frag) => frag@ == indent_of(html@) && final(self).cache_map()
                            =~= old(self).cache_map().insert(page_name@, html@),
                        Err(_) => false,
                    },
                    None => match r {
                        Ok(_) => false,
                        Err(_) => final(self).cache_map() == old(self).cache_map(),
                    },
                }
            },
    {
        let key = page_name.to_owned();
        if !self.live_mode {
            let cached = self.lookup(&key);
            if let Some(fragment) = cached {
                return Ok(indent_fragment(fragment.as_str()));
            }
        }
        self.renders = Ghost(self.renders@ + 1);
        match rendered {
            Some(html) => {
                let fragment = indent_fragment(html.as_str());
                self.store(key, html);
                Ok(fragment)
            },
            None => Err(LoadError::RenderFailure),
        }
    }

    /// Derives the display title from raw source text.
    pub fn get_page_name(&self, source: &str) -> (r: String)
        ensures
            r@ == title_of(source@),
    {
        let n = source.unicode_len();
        if n == 0 {
            return default_title_str();
        }
        let mut j: usize = 0;
        while j < n && source.get_char(j) != '\n'
            invariant
                n == source@.len(),
                j <= n,
                forall|k: int| 0 <= k < j ==> source@[k] != '\n',
            decreases n - j,
        {
            j = j + 1;
        }
        let line_end = if j > 0 && source.get_char(j - 1) == '\r' {
            j - 1
        } else {
            j
        };
        proof {
            if j < n {
                crate::text::lemma_find_char_at(source@, '\n', j as int);
            } else {
                crate::text::lemma_find_char_spec(source@, '\n');
                if crate::text::find_char(source@, '\n') != -1 {
                    assert(source@[crate::text::find_char(source@, '\n')] == '\n');
                    assert(false);
                }
            }
            assert(line_break(source@) == j as int);
            assert(strip_cr(source@.subrange(0, j as int)) =~= source@.subrange(
                0,
                line_end as int,
            ));
        }
        let ghost line = strip_cr(source@.subrange(0, line_break(source@)));
        let mut k: usize = 0;
        while k < line_end && source.get_char(k) != ' '
            invariant
                n == source@.len(),
                line_end <= n,
                k <= line_end,
                line =~= source@.subrange(0, line_end as int),
                forall|m: int| 0 <= m < k ==> source@[m] != ' ',
            decreases line_end - k,
        {
            k = k + 1;
        }
        if k == line_end {
            proof {
                crate::text::lemma_find_char_spec(line, ' ');
                if crate::text::find_char(line, ' ') != -1 {
                    assert(line[crate::text::find_char(line, ' ')] == ' ');
                    assert(false);
                }
            }
            default_title_str()
        } else {
            proof {
                assert(line[k as int] == source@[k as int]);
                crate::text::lemma_find_char_at(line, ' ', k as int);
            }
            let title = source.substring_char(k + 1, line_end);
            proof {
                assert(title@ =~= line.subrange(k + 1, line.len() as int));
            }
            title.to_owned()
        }
    }

    /// Whether the page exists: unconditionally for the empty key, otherwise
    /// exactly when the resolved path names a regular file right now (the
    /// check is never cached, so a file removed after a render is noticed).
    pub fn validate_page(&self, page_name: &str) -> (r: bool)
        ensures
            page_name@.len() == 0 ==> r,
    {
        if page_name.unicode_len() == 0 {
            true
        } else {
            let resolved = self.resolve(page_name);
            path_is_file(resolved.as_str())
        }
    }
}

/// Re-indents a rendered fragment so the composed document keeps a
/// consistent nesting when the fragment is embedded in the template.
pub fn indent_fragment(s: &str) -> (r: String)
    ensures
        r@ == indent_of(s@),
{
    let n = s.unicode_len();
    let mut r = String::new();
    let mut pos: usize = 0;
    proof {
        assert(s@.subrange(0, n as int) =~= s@);
    }
    while pos < n
        invariant
            n == s@.len(),
            pos <= n,
            r@ + indent_of(s@.subrange(pos as int, n as int)) =~= indent_of(s@),
        decreases n - pos,
    {
        let mut j = pos;
        while j < n && s.get_char(j) != '\n'
            invariant
                n == s@.len(),
                pos <= j <= n,
                forall|k: int| pos <= k < j ==> s@[k] != '\n',
            decreases n - j,
        {
            j = j + 1;
        }
        let line_end = if j > pos && s.get_char(j - 1) == '\r' {
            j - 1
        } else {
            j
        };
        let ghost prev = r@;
        r.append("    ");
        let line = s.substring_char(pos, line_end);
        r.append(line);
        r.append("\n");
        let new_pos = if j < n {
            j + 1
        } else {
            n
        };
        proof {
            let suffix = s@.subrange(pos as int, n as int);
            if j < n {
                assert(suffix[j - pos] == '\n');
                crate::text::lemma_find_char_at(suffix, '\n', j - pos);
            } else {
                crate::text::lemma_find_char_spec(suffix, '\n');
                if crate::text::find_char(suffix, '\n') != -1 {
                    assert(suffix[crate::text::find_char(suffix, '\n')] == '\n');
                    assert(false);
                }
            }
            assert(line_break(suffix) == j - pos);
            assert(suffix.subrange(0, j - pos) =~= s@.subrange(pos as int, j as int));
            assert(strip_cr(suffix.subrange(0, j - pos)) =~= s@.subrange(
                pos as int,
                line_end as int,
            ));
            if j < n {
                assert(suffix.subrange(j - pos + 1, suffix.len() as int) =~= s@.subrange(
                    new_pos as int,
                    n as int,
                ));
            } else {
                assert(s@.subrange(new_pos as int, n as int) =~= Seq::<char>::empty());
            }
            assert(indent_of(suffix) =~= "    "@ + s@.subrange(pos as int, line_end as int) + "\n"@
                + indent_of(s@.subrange(new_pos as int, n as int)));
            assert(r@ + indent_of(s@.subrange(new_pos as int, n as int)) =~= prev + indent_of(
                suffix,
            ));
        }
        pos = new_pos;
    }
    proof {
        assert(s@.subrange(n as int, n as int) =~= Seq::<char>::empty());
        assert(r@ =~= indent_of(s@));
    }
    r
}

/// Off live mode, loading a key twice without touching the backing file
/// renders at most once and serves byte-identical fragments: the load that
/// populated the cache returned `indent_of(h)` and left the entry `h` under
/// the key, and a later cache hit re-indents that same entry.
pub proof fn lemma_load_idempotent(m: Map<Seq<char>, Seq<char>>, k: Seq<char>, h: Seq<char>)
    ensures
        indent_of(m.insert(k, h)[k]) == indent_of(h),
{
}

impl Default for MarkdownLoader {
    /// An empty loader: no cache entries, no root path, live mode off.
    fn default() -> (r: Self)
        ensures
            r.wf(),
            r.cache_map() == Map::<Seq<char>, Seq<char>>::empty(),
            r.root() == Seq::<char>::empty(),
            !r.live(),
            r.render_count() == 0,
    {
        MarkdownLoader::new(false)
    }
}

/// The fixed fallback title as an owned string.
fn default_title_str() -> (r: String)
    ensures
        r@ == default_title(),
{
    String::from_str("Default title")
}

/// Relies on `std::path::Path::is_file`: true exactly when the path names an
/// existing regular file, false otherwise or on any filesystem error. The
/// outcome depends on the disk at the moment of the call, so nothing is
/// stated of it.
#[verifier::external_body]
fn path_is_file(path: &str) -> bool {
    std::path::Path::new(path).is_file()
}

} // verus!
