use crate::alignment::{align_text, align_text_spec, Alignment, ColumnConfig};
use crate::border::BorderChars;
use crate::padding::{apply_padding, apply_padding_spec, Padding};
use crate::renderer::RenderOptions;
use crate::table_data::{
    byte_column_widths, column_count_of, first_bad_row, lemma_no_bad_row, plain_cells_ok,
    plain_table_gen, render_rows, validate_table_data, TableData,
};
use crate::text::{owned, str_eq, views};
use crate::truncation::{truncate_parts, truncate_text, truncate_text_ok, truncate_text_spec, TruncationConfig};
use crate::types::Row;
use crate::unicode::{display_width, unicode_column_max};
use crate::utils::formatting::table_view;
use vstd::prelude::*;

verus! {

/// Settings for rendering large tables quickly.
#[derive(Debug, Clone, Copy, PartialEq, Eq, Structural)]
pub struct PerformanceConfig {
    pub enable_caching: bool,
    pub cache_size_limit: usize,
    pub use_string_pool: bool,
    pub optimize_memory: bool,
}

impl Default for PerformanceConfig {
    /// Caching on with a limit of 1000 entries, string pool and memory optimisation on.
    fn default() -> (res: Self)
        ensures
            res == (PerformanceConfig {
                enable_caching: true,
                cache_size_limit: 1000,
                use_string_pool: true,
                optimize_memory: true,
            }),
    {
        PerformanceConfig {
            enable_caching: true,
            cache_size_limit: 1000,
            use_string_pool: true,
            optimize_memory: true,
        }
    }
}

impl PerformanceConfig {
    /// The default settings.
    pub fn new() -> (res: Self)
        ensures
            res == (PerformanceConfig {
                enable_caching: true,
                cache_size_limit: 1000,
                use_string_pool: true,
                optimize_memory: true,
            }),
    {
        Self::default()
    }

    /// The same settings with caching on or off.
    pub fn with_caching(self, enabled: bool) -> (res: Self)
        ensures
            res == (PerformanceConfig { enable_caching: enabled, ..self }),
    {
        PerformanceConfig { enable_caching: enabled, ..self }
    }

    /// The same settings with another cache limit.
    pub fn with_cache_limit(self, limit: usize) -> (res: Self)
        ensures
            res == (PerformanceConfig { cache_size_limit: limit, ..self }),
    {
        PerformanceConfig { cache_size_limit: limit, ..self }
    }

    /// The same settings with the string pool on or off.
    pub fn with_string_pool(self, enabled: bool) -> (res: Self)
        ensures
            res == (PerformanceConfig { use_string_pool: enabled, ..self }),
    {
        PerformanceConfig { use_string_pool: enabled, ..self }
    }

    /// The same settings with memory optimisation on or off.
    pub fn with_memory_optimization(self, enabled: bool) -> (res: Self)
        ensures
            res == (PerformanceConfig { optimize_memory: enabled, ..self }),
    {
        PerformanceConfig { optimize_memory: enabled, ..self }
    }
}

/// A cached placement: text, width and alignment, and the placed text.
pub struct AlignEntry {
    pub text: String,
    pub width: usize,
    pub alignment: Alignment,
    pub value: String,
}

/// A cached padding: text and padding, and the padded text.
pub struct PadEntry {
    pub text: String,
    pub padding: Padding,
    pub value: String,
}

/// A cached cut: text, maximum and ellipsis, and the cut text.
pub struct CutEntry {
    pub text: String,
    pub max_width: usize,
    pub ellipsis: String,
    pub value: String,
}

/// Results of placing, padding and cutting text, each kept with what it was computed from,
/// up to a limit of entries per kind.
pub struct RenderCache {
    pub alignment_cache: Vec<AlignEntry>,
    pub padding_cache: Vec<PadEntry>,
    pub truncation_cache: Vec<CutEntry>,
    pub size_limit: usize,
}

/// Whether every entry of the cache holds the result of its computation, and no key is
/// held twice.
pub open spec fn cache_ok(c: RenderCache) -> bool {
    &&& forall|k: int| 0 <= k < c.alignment_cache@.len() ==> (#[trigger] c.alignment_cache@[k]).value@
        == align_text_spec(c.alignment_cache@[k].text@, c.alignment_cache@[k].width as nat, c.alignment_cache@[k].alignment)
    &&& forall|k: int| 0 <= k < c.padding_cache@.len() ==> (#[trigger] c.padding_cache@[k]).value@
        == apply_padding_spec(c.padding_cache@[k].text@, c.padding_cache@[k].padding)
    &&& forall|k: int| 0 <= k < c.truncation_cache@.len() ==> (#[trigger] c.truncation_cache@[k]).value@
        == truncate_parts(c.truncation_cache@[k].text@, Some(c.truncation_cache@[k].max_width), c.truncation_cache@[k].ellipsis@, false)
    &&& forall|i: int, j: int| 0 <= i < j < c.alignment_cache@.len() ==> !((#[trigger] c.alignment_cache@[i]).text@
        == (#[trigger] c.alignment_cache@[j]).text@ && c.alignment_cache@[i].width == c.alignment_cache@[j].width
        && c.alignment_cache@[i].alignment == c.alignment_cache@[j].alignment)
    &&& forall|i: int, j: int| 0 <= i < j < c.padding_cache@.len() ==> !((#[trigger] c.padding_cache@[i]).text@
        == (#[trigger] c.padding_cache@[j]).text@ && c.padding_cache@[i].padding == c.padding_cache@[j].padding)
    &&& forall|i: int, j: int| 0 <= i < j < c.truncation_cache@.len() ==> !((#[trigger] c.truncation_cache@[i]).text@
        == (#[trigger] c.truncation_cache@[j]).text@ && c.truncation_cache@[i].max_width == c.truncation_cache@[j].max_width
        && c.truncation_cache@[i].ellipsis@ == c.truncation_cache@[j].ellipsis@)
}

/// Whether the cache holds at most `size_limit` results of each kind.
pub open spec fn cache_within_limit(c: RenderCache) -> bool {
    &&& c.alignment_cache@.len() <= c.size_limit
    &&& c.padding_cache@.len() <= c.size_limit
    &&& c.truncation_cache@.len() <= c.size_limit
}

/// What a lookup leaves of a cache: every entry the result of its computation, the same
/// limit, and no more results of a kind than the limit where that held before.
pub open spec fn lookup_step(a: RenderCache, b: RenderCache) -> bool {
    &&& cache_ok(b)
    &&& b.size_limit == a.size_limit
    &&& cache_within_limit(a) ==> cache_within_limit(b)
}

/// A cache made by `new`, after any run of lookups (each step as `get_aligned_text`,
/// `get_padded_text` or `get_truncated_text` leaves it, each of which also gives the
/// computed result, hit or miss), holds in every state only results of their computations,
/// at most `size_limit` of each kind.
pub proof fn law_cache_run(run: Seq<RenderCache>)
    requires
        run.len() > 0,
        cache_ok(run[0]),
        cache_within_limit(run[0]),
        forall|k: int| 0 <= k < run.len() - 1 ==> #[trigger] lookup_step(run[k], run[k + 1]),
    ensures
        forall|k: int|
            0 <= k < run.len() ==> cache_ok(#[trigger] run[k]) && cache_within_limit(run[k]) && run[k].size_limit
                == run[0].size_limit,
    decreases run.len(),
{
    if run.len() > 1 {
        let p = run.drop_last();
        assert forall|k: int| 0 <= k < p.len() - 1 implies #[trigger] lookup_step(p[k], p[k + 1]) by {
            assert(lookup_step(run[k], run[k + 1]));
        }
        law_cache_run(p);
        let n = run.len() - 1;
        let k0 = n - 1;
        assert(lookup_step(run[k0], run[k0 + 1]));
        assert(k0 + 1 == n);
        assert(p[n - 1] == run[n - 1]);
        assert forall|k: int| 0 <= k < run.len() implies cache_ok(#[trigger] run[k]) && cache_within_limit(run[k])
            && run[k].size_limit == run[0].size_limit by {
            if k < n {
                assert(p[k] == run[k]);
            }
        }
    }
}

/// The number of entries, held at `usize::MAX`.
pub open spec fn cache_len(c: RenderCache) -> nat {
    crate::utils::ansi::sat_add(
        crate::utils::ansi::sat_add(c.alignment_cache@.len(), c.padding_cache@.len()),
        c.truncation_cache@.len(),
    )
}

/// Whether the cache did not change, or gained one entry of one kind at the end.
pub open spec fn cache_step(a: RenderCache, b: RenderCache) -> bool {
    &&& b.size_limit == a.size_limit
    &&& a.alignment_cache@.len() <= b.alignment_cache@.len()
    &&& a.padding_cache@.len() <= b.padding_cache@.len()
    &&& a.truncation_cache@.len() <= b.truncation_cache@.len()
}

impl RenderCache {
    /// An empty cache with the given limit per kind.
    pub fn new(size_limit: usize) -> (res: Self)
        ensures
            cache_ok(res),
            cache_within_limit(res),
            res.size_limit == size_limit,
            res.alignment_cache@.len() == 0,
            res.padding_cache@.len() == 0,
            res.truncation_cache@.len() == 0,
    {
        RenderCache {
            alignment_cache: Vec::new(),
            padding_cache: Vec::new(),
            truncation_cache: Vec::new(),
            size_limit,
        }
    }

    /// `text` placed in `width` columns (see `align_text`); the result is kept for later
    /// calls while the cache has room.
    pub fn get_aligned_text(&mut self, text: &str, width: usize, alignment: Alignment) -> (res: String)
        requires
            cache_ok(*old(self)),
        ensures
            lookup_step(*old(self), *final(self)),
            cache_within_limit(*old(self)) ==> cache_within_limit(*final(self)),
            cache_ok(*final(self)),
            res@ == align_text_spec(text@, width as nat, alignment),
            final(self).padding_cache@ == old(self).padding_cache@,
            final(self).truncation_cache@ == old(self).truncation_cache@,
            final(self).size_limit == old(self).size_limit,
            (exists|k: int| 0 <= k < old(self).alignment_cache@.len() && #[trigger] old(self).alignment_cache@[k].text@ == text@
                && old(self).alignment_cache@[k].width == width && old(self).alignment_cache@[k].alignment == alignment)
                ==> final(self).alignment_cache@.len() == old(self).alignment_cache@.len(),
            final(self).alignment_cache@.len() <= old(self).alignment_cache@.len() + 1,
            final(self).alignment_cache@.len() > old(self).alignment_cache@.len() ==> old(self).alignment_cache@.len() < old(self).size_limit,
            old(self).alignment_cache@.len() < old(self).size_limit ==> final(self).alignment_cache@.len() >= old(self).alignment_cache@.len()
                && (final(self).alignment_cache@.len() == old(self).alignment_cache@.len() ==> exists|k: int| 0 <= k < old(self).alignment_cache@.len()
                    && #[trigger] old(self).alignment_cache@[k].text@ == text@ && old(self).alignment_cache@[k].width == width
                    && old(self).alignment_cache@[k].alignment == alignment),
    {
        let mut k: usize = 0;
        while k < self.alignment_cache.len()
            invariant
                k <= self.alignment_cache@.len(),
                cache_ok(*self),
                *self == *old(self),
                forall|m: int| 0 <= m < k ==> !(#[trigger] self.alignment_cache@[m].text@ == text@
                    && self.alignment_cache@[m].width == width && self.alignment_cache@[m].alignment == alignment),
            decreases self.alignment_cache.len() - k,
        {
            let e = &self.alignment_cache[k];
            if str_eq(e.text.as_str(), text) && e.width == width && e.alignment == alignment {
                return owned(e.value.as_str());
            }
            k = k + 1;
        }
        let result = align_text(text, width, alignment);
        if self.alignment_cache.len() < self.size_limit {
            let entry = AlignEntry { text: owned(text), width, alignment, value: owned(result.as_str()) };
            self.alignment_cache.push(entry);
        }
        result
    }

    /// `text` between the padding's spaces (see `apply_padding`); the result is kept for
    /// later calls while the cache has room.
    pub fn get_padded_text(&mut self, text: &str, padding: Padding) -> (res: String)
        requires
            cache_ok(*old(self)),
        ensures
            lookup_step(*old(self), *final(self)),
            cache_within_limit(*old(self)) ==> cache_within_limit(*final(self)),
            cache_ok(*final(self)),
            res@ == apply_padding_spec(text@, padding),
            final(self).alignment_cache@ == old(self).alignment_cache@,
            final(self).truncation_cache@ == old(self).truncation_cache@,
            final(self).size_limit == old(self).size_limit,
            final(self).padding_cache@.len() <= old(self).padding_cache@.len() + 1,
    {
        let mut k: usize = 0;
        while k < self.padding_cache.len()
            invariant
                k <= self.padding_cache@.len(),
                cache_ok(*self),
                *self == *old(self),
                forall|m: int| 0 <= m < k ==> !(#[trigger] self.padding_cache@[m].text@ == text@
                    && self.padding_cache@[m].padding == padding),
            decreases self.padding_cache.len() - k,
        {
            let e = &self.padding_cache[k];
            if str_eq(e.text.as_str(), text) && e.padding == padding {
                return owned(e.value.as_str());
            }
            k = k + 1;
        }
        let result = apply_padding(text, padding);
        if self.padding_cache.len() < self.size_limit {
            let entry = PadEntry { text: owned(text), padding, value: owned(result.as_str()) };
            self.padding_cache.push(entry);
        }
        result
    }

    /// `text` cut from the end to `max_width` bytes with the ellipsis (see `truncate_text`);
    /// the result is kept for later calls while the cache has room.
    pub fn get_truncated_text(&mut self, text: &str, max_width: usize, ellipsis: &str) -> (res: String)
        requires
            cache_ok(*old(self)),
        ensures
            lookup_step(*old(self), *final(self)),
            cache_within_limit(*old(self)) ==> cache_within_limit(*final(self)),
            cache_ok(*final(self)),
            res@ == truncate_parts(text@, Some(max_width), ellipsis@, false),
            final(self).alignment_cache@ == old(self).alignment_cache@,
            final(self).padding_cache@ == old(self).padding_cache@,
            final(self).size_limit == old(self).size_limit,
            final(self).truncation_cache@.len() <= old(self).truncation_cache@.len() + 1,
    {
        let mut k: usize = 0;
        while k < self.truncation_cache.len()
            invariant
                k <= self.truncation_cache@.len(),
                cache_ok(*self),
                *self == *old(self),
                forall|m: int| 0 <= m < k ==> !(#[trigger] self.truncation_cache@[m].text@ == text@
                    && self.truncation_cache@[m].max_width == max_width && self.truncation_cache@[m].ellipsis@ == ellipsis@),
            decreases self.truncation_cache.len() - k,
        {
            let e = &self.truncation_cache[k];
            if str_eq(e.text.as_str(), text) && e.max_width == max_width && str_eq(e.ellipsis.as_str(), ellipsis) {
                return owned(e.value.as_str());
            }
            k = k + 1;
        }
        let config = TruncationConfig::new().with_max_width(max_width).with_ellipsis(ellipsis);
        let result = truncate_text(text, &config);
        if self.truncation_cache.len() < self.size_limit {
            let entry = CutEntry { text: owned(text), max_width, ellipsis: owned(ellipsis), value: owned(result.as_str()) };
            self.truncation_cache.push(entry);
        }
        result
    }

    /// Empties the cache.
    pub fn clear(&mut self)
        ensures
            cache_ok(*final(self)),
            final(self).size_limit == old(self).size_limit,
            final(self).alignment_cache@.len() == 0,
            final(self).padding_cache@.len() == 0,
            final(self).truncation_cache@.len() == 0,
    {
        self.alignment_cache = Vec::new();
        self.padding_cache = Vec::new();
        self.truncation_cache = Vec::new();
    }

    /// The number of entries of all kinds (held at `usize::MAX`).
    pub fn cache_size(&self) -> (res: usize)
        ensures
            res == cache_len(*self),
    {
        self.alignment_cache.len().saturating_add(self.padding_cache.len()).saturating_add(
            self.truncation_cache.len(),
        )
    }

    /// One cell: cut (when a maximum is set), placed, padded; through the cache when
    /// `use_cache` holds, computed directly otherwise.
    pub(crate) fn process(
        &mut self,
        cell: &str,
        truncation: &TruncationConfig,
        width: usize,
        alignment: Alignment,
        padding: Padding,
        use_cache: bool,
    ) -> (res: String)
        requires
            cache_ok(*old(self)),
            truncate_text_ok(cell@, *truncation),
            use_cache ==> !truncation.truncate_start,
        ensures
            cache_ok(*final(self)),
            res@ == apply_padding_spec(align_text_spec(truncate_text_spec(cell@, *truncation), width as nat, alignment), padding),
    {
        if use_cache {
            let truncated = match truncation.max_width {
                Some(m) => self.get_truncated_text(cell, m, truncation.ellipsis.as_str()),
                None => owned(cell),
            };
            let aligned = self.get_aligned_text(truncated.as_str(), width, alignment);
            self.get_padded_text(aligned.as_str(), padding)
        } else {
            let truncated = truncate_text(cell, truncation);
            let aligned = align_text(truncated.as_str(), width, alignment);
            apply_padding(aligned.as_str(), padding)
        }
    }
}

/// Distinct strings kept for reuse, up to a number of them.
pub struct StringPool {
    pub pool: Vec<String>,
    pub max_size: usize,
}

/// Whether no string is kept twice.
pub open spec fn pool_ok(p: StringPool) -> bool {
    forall|i: int, j: int| 0 <= i < j < p.pool@.len() ==> (#[trigger] p.pool@[i])@ != (#[trigger] p.pool@[j])@
}

impl StringPool {
    /// An empty pool holding at most `max_size` strings.
    pub fn new(max_size: usize) -> (res: Self)
        ensures
            pool_ok(res),
            res.pool@.len() == 0,
            res.max_size == max_size,
    {
        StringPool { pool: Vec::new(), max_size }
    }

    /// A string equal to `s`; `s` is kept in the pool when it is not there yet and there is
    /// room.
    pub fn intern(&mut self, s: &str) -> (res: String)
        requires
            pool_ok(*old(self)),
        ensures
            pool_ok(*final(self)),
            res@ == s@,
            final(self).max_size == old(self).max_size,
            views(final(self).pool@) == if views(old(self).pool@).contains(s@) || old(self).pool@.len() >= old(self).max_size {
                views(old(self).pool@)
            } else {
                views(old(self).pool@).push(s@)
            },
    {
        if crate::utils::wrapping::contains_string(&self.pool, s) {
            return owned(s);
        }
        if self.pool.len() < self.max_size {
            let ghost before = views(self.pool@);
            proof {
                assert forall|i: int| 0 <= i < self.pool@.len() implies self.pool@[i]@ != s@ by {
                    assert(views(self.pool@)[i] == self.pool@[i]@);
                }
            }
            self.pool.push(owned(s));
            assert(views(self.pool@) =~= before.push(s@));
        }
        owned(s)
    }

    /// Empties the pool.
    pub fn clear(&mut self)
        ensures
            pool_ok(*final(self)),
            final(self).pool@.len() == 0,
            final(self).max_size == old(self).max_size,
    {
        self.pool = Vec::new();
    }

    /// The number of strings kept.
    pub fn size(&self) -> (res: usize)
        ensures
            res == self.pool@.len(),
    {
        self.pool.len()
    }
}

/// A plain-table renderer that may cache cell results.
pub struct FastTableRenderer {
    pub cache: RenderCache,
    pub string_pool: StringPool,
    pub config: PerformanceConfig,
}

/// Whether a renderer's cache and pool keep their invariants.
pub open spec fn renderer_ok(r: FastTableRenderer) -> bool {
    cache_ok(r.cache) && pool_ok(r.string_pool)
}

/// The content widths the fast renderer uses: the longest cells in bytes when optimising
/// memory, the widest in display columns otherwise.
pub open spec fn fast_widths(t: Seq<Seq<Seq<char>>>, optimize_memory: bool) -> Seq<nat> {
    if optimize_memory {
        byte_column_widths(t)
    } else {
        Seq::new(column_count_of(t), |c: int| unicode_column_max(t, c, t.len() as int))
    }
}

impl FastTableRenderer {
    /// A renderer with an empty cache of the configured limit and a pool of half of it.
    pub fn new(config: PerformanceConfig) -> (res: Self)
        ensures
            renderer_ok(res),
            res.config == config,
            res.cache.size_limit == config.cache_size_limit,
            res.string_pool.max_size == config.cache_size_limit / 2,
    {
        FastTableRenderer {
            cache: RenderCache::new(config.cache_size_limit),
            string_pool: StringPool::new(config.cache_size_limit / 2),
            config,
        }
    }

    /// Draws a plain table like `render_table_with_column_config`, with the content widths
    /// of `fast_widths`; with caching on, cells go through the cache and are always cut at
    /// the end.
    pub fn render_table(
        &mut self,
        data: &TableData,
        border: &BorderChars,
        options: &RenderOptions,
        column_configs: &[ColumnConfig],
    ) -> (res: Result<String, String>)
        requires
            renderer_ok(*old(self)),
            plain_cells_ok(table_view(data.rows@), column_configs@),
        ensures
            renderer_ok(*final(self)),
            final(self).config == old(self).config,
            first_bad_row(table_view(data.rows@), 0, column_count_of(table_view(data.rows@))) is Some <==> res is Err,
            res matches Ok(s) ==> s@ == plain_table_gen(
                table_view(data.rows@),
                *border,
                *options,
                column_configs@,
                fast_widths(table_view(data.rows@), old(self).config.optimize_memory),
                !old(self).config.enable_caching,
            ),
    {
        match validate_table_data(data) {
            Ok(_) => {},
            Err(e) => {
                return Err(e);
            },
        }
        if data.rows.len() == 0 {
            return Ok(String::new());
        }
        let ghost t = table_view(data.rows@);
        proof {
            lemma_no_bad_row(t, 0, column_count_of(t));
        }
        let auto = self.calculate_column_widths_fast(data);
        assert(auto@.map_values(|w: usize| w as nat).len() == auto@.len());
        assert(auto@.len() == column_count_of(t));
        proof {
            assert forall|r: int| 0 <= r < data.rows@.len() implies (#[trigger] data.rows@[r])@.len() == auto@.len() by {
                assert(t[r].len() == column_count_of(t));
            }
        }
        let use_cache = self.config.enable_caching;
        let r = render_rows(data, border, options, column_configs, &auto, !use_cache, &mut self.cache, use_cache);
        Ok(r)
    }

    /// The content widths for a table (see `fast_widths`).
    pub fn calculate_column_widths_fast(&self, data: &TableData) -> (res: Vec<usize>)
        ensures
            res@.map_values(|w: usize| w as nat) == fast_widths(table_view(data.rows@), self.config.optimize_memory),
    {
        if self.config.optimize_memory {
            let w = crate::table_data::calculate_column_widths(data);
            assert(w@.map_values(|x: usize| x as nat) =~= byte_column_widths(table_view(data.rows@)));
            w
        } else {
            let w = crate::unicode::calculate_unicode_column_widths(data.rows.as_slice());
            assert(w@.map_values(|x: usize| x as nat) =~= fast_widths(table_view(data.rows@), false));
            w
        }
    }

    /// Empties the cache and the pool.
    pub fn clear_cache(&mut self)
        ensures
            renderer_ok(*final(self)),
            final(self).config == old(self).config,
            cache_len(final(self).cache) == 0,
            final(self).string_pool.pool@.len() == 0,
    {
        self.cache.clear();
        self.string_pool.clear();
    }

    /// The numbers of cached results and pooled strings.
    pub fn cache_stats(&self) -> (res: (usize, usize))
        ensures
            res.0 == cache_len(self.cache),
            res.1 == self.string_pool.pool@.len(),
    {
        (self.cache.cache_size(), self.string_pool.size())
    }
}

/// Splits tables into batches of rows.
pub struct BatchProcessor {
    pub batch_size: usize,
}

/// The bytes of all cells, summed over the rows.
pub open spec fn content_bytes(t: Seq<Seq<Seq<char>>>) -> nat {
    crate::validation::table_bytes(t, t.len() as int)
}

impl BatchProcessor {
    /// Batches of `batch_size` rows.
    pub fn new(batch_size: usize) -> (res: Self)
        ensures
            res.batch_size == batch_size,
    {
        BatchProcessor { batch_size }
    }

    /// The rows in consecutive batches of `batch_size` (the last one shorter), each handed to
    /// `processor`; the first error stops the processing.
    pub fn process_in_batches<F: Fn(&[Row]) -> Result<String, String>>(&self, data: &TableData, processor: F) -> (res: Result<Vec<String>, String>)
        requires
            self.batch_size > 0,
            forall|b: &[Row]| #[trigger] processor.requires((b,)),
        ensures
            res matches Ok(v) ==> v@.len() == batch_count(data.rows@.len(), self.batch_size as nat),
            res matches Ok(v) ==> forall|k: int| 0 <= k < v@.len() ==> batch_result(processor, data.rows@, self.batch_size as nat, k, #[trigger] v@[k]),
            data.rows@.len() == 0 ==> (res matches Ok(v) && v@.len() == 0),
            (forall|b: &[Row], r: Result<String, String>| #[trigger] processor.ensures((b,), r) ==> r is Ok) ==> res is Ok,
            res matches Err(e) ==> failed_batch(processor, data.rows@, self.batch_size as nat, e),
    {
        let mut results: Vec<String> = Vec::new();
        let n = data.rows.len();
        let size = self.batch_size;
        let mut start: usize = 0;
        while start < n
            invariant
                start <= n == data.rows@.len(),
                size == self.batch_size,
                size > 0,
                start == bstart(results@.len(), size as nat, n as nat),
                start < n ==> start == results@.len() * size,
                results@.len() + batch_count((n - start) as nat, size as nat) == batch_count(n as nat, size as nat),
                forall|b: &[Row]| #[trigger] processor.requires((b,)),
                forall|k: int| 0 <= k < results@.len() ==> batch_result(processor, data.rows@, size as nat, k, #[trigger] results@[k]),
            decreases n - start,
        {
            let end: usize = if size < n - start {
                start + size
            } else {
                n
            };
            let ghost k = results@.len();
            assert((k + 1) * size == k * size + size) by (nonlinear_arith);
            assert(end == bstart(k + 1, size as nat, n as nat));
            let batch = crate::utils::formatting::copy_rows(data.rows.as_slice(), start, end);
            let bs = batch.as_slice();
            let out = processor(bs);
            let ghost prev = results@;
            match out {
                Ok(s) => {
                    results.push(s);
                    proof {
                        assert(processor.ensures((bs,), Ok::<String, String>(results@[k as int])));
                        assert(table_view(bs@) == table_view(data.rows@).subrange(
                            bstart(k as nat, size as nat, n as nat) as int,
                            bstart((k + 1) as nat, size as nat, n as nat) as int,
                        ));
                        assert(batch_result(processor, data.rows@, size as nat, k as int, results@[k as int]));
                        assert forall|m: int| 0 <= m < results@.len() implies batch_result(processor, data.rows@, size as nat, m, #[trigger] results@[m]) by {
                            if m < k {
                                assert(results@[m] == prev[m]);
                            }
                        }
                    }
                },
                Err(e) => {
                    proof {
                        assert(processor.ensures((bs,), Err::<String, String>(e)));
                        assert(table_view(bs@) == table_view(data.rows@).subrange(
                            bstart(k as nat, size as nat, n as nat) as int,
                            bstart((k + 1) as nat, size as nat, n as nat) as int,
                        ));
                        assert(batch_error(processor, data.rows@, size as nat, k as int, e));
                        assert(batch_count((n - start) as nat, size as nat) >= 1);
                        assert(0 <= k < batch_count(data.rows@.len(), self.batch_size as nat));
                        assert(failed_batch(processor, data.rows@, self.batch_size as nat, e));
                    }
                    return Err(e);
                },
            }
            start = end;
        }
        Ok(results)
    }

    /// Twice the bytes of all cells.
    pub fn estimate_memory_usage(&self, data: &TableData) -> (res: usize)
        requires
            2 * content_bytes(table_view(data.rows@)) <= usize::MAX,
        ensures
            res == 2 * content_bytes(table_view(data.rows@)),
    {
        let ghost t = table_view(data.rows@);
        let mut total: usize = 0;
        let mut r: usize = 0;
        while r < data.rows.len()
            invariant
                r <= data.rows.len(),
                t == table_view(data.rows@),
                2 * content_bytes(t) <= usize::MAX,
                total == crate::validation::table_bytes(t, r as int),
            decreases data.rows.len() - r,
        {
            let row = &data.rows[r];
            assert(t[r as int] == views(row@));
            proof {
                crate::validation::lemma_table_bytes_mono(t, r + 1, t.len() as int);
            }
            let mut c: usize = 0;
            let mut rb: usize = 0;
            while c < row.len()
                invariant
                    c <= row.len(),
                    r < data.rows.len(),
                    row == &data.rows@[r as int],
                    t[r as int] == views(row@),
                    2 * content_bytes(t) <= usize::MAX,
                    total == crate::validation::table_bytes(t, r as int),
                    crate::validation::table_bytes(t, r + 1) <= content_bytes(t),
                    rb == crate::validation::row_bytes(views(row@), c as int),
                decreases row.len() - c,
            {
                proof {
                    crate::validation::lemma_row_bytes_mono(views(row@), c + 1, row@.len() as int);
                }
                assert(views(row@)[c as int] == row@[c as int]@);
                rb = rb + row[c].as_str().as_bytes().len();
                c = c + 1;
            }
            total = total + rb;
            r = r + 1;
        }
        total * 2
    }
}

/// Where batch `k` starts: `k` batches of `size` rows in, held at the end `n`.
pub open spec fn bstart(k: nat, size: nat, n: nat) -> nat {
    if k * size < n {
        k * size
    } else {
        n
    }
}

/// The number of batches of `size` rows that `n` rows make.
pub open spec fn batch_count(n: nat, size: nat) -> nat
    decreases n,
{
    if n == 0 || size == 0 {
        0
    } else if n <= size {
        1
    } else {
        1 + batch_count((n - size) as nat, size)
    }
}

/// Whether `out` is what `processor` may give for batch `k` of `rows` in batches of `size`.
pub open spec fn batch_result<F: Fn(&[Row]) -> Result<String, String>>(processor: F, rows: Seq<Row>, size: nat, k: int, out: String) -> bool {
    exists|b: &[Row]| #[trigger] processor.ensures((b,), Ok::<String, String>(out)) && table_view(b@)
        == table_view(rows).subrange(
        bstart(k as nat, size, rows.len()) as int,
        bstart((k + 1) as nat, size, rows.len()) as int,
    )
}

/// Whether `e` is an error that `processor` may give for batch `k` of `rows` in batches of `size`.
pub open spec fn batch_error<F: Fn(&[Row]) -> Result<String, String>>(processor: F, rows: Seq<Row>, size: nat, k: int, e: String) -> bool {
    exists|b: &[Row]| #[trigger] processor.ensures((b,), Err::<String, String>(e)) && table_view(b@)
        == table_view(rows).subrange(
        bstart(k as nat, size, rows.len()) as int,
        bstart((k + 1) as nat, size, rows.len()) as int,
    )
}

/// Whether `e` is an error that `processor` may give for one of the batches of `rows`.
pub open spec fn failed_batch<F: Fn(&[Row]) -> Result<String, String>>(processor: F, rows: Seq<Row>, size: nat, e: String) -> bool {
    exists|k: int| 0 <= k < batch_count(rows.len(), size) && #[trigger] batch_error(processor, rows, size, k, e)
}

} // verus!
