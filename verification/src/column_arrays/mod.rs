pub mod patterns;

use crate::alignment::{is_default_column, Alignment, ColumnConfig};
use crate::border::BorderChars;
use crate::renderer::RenderOptions;
use crate::table_data::{
    column_count_of, first_bad_row, plain_cells_ok, plain_table_spec,
    render_table_with_column_config, TableData,
};
use crate::utils::formatting::table_view;
use vstd::prelude::*;

verus! {

/// Column settings given as a list, cycled through or followed by a default.
#[derive(Debug, Clone)]
pub struct ColumnConfigArray {
    pub configs: Vec<ColumnConfig>,
    pub repeat_pattern: bool,
    pub default_config: ColumnConfig,
}

impl Default for ColumnConfigArray {
    /// No settings, not cycled, the default column.
    fn default() -> (res: Self)
        ensures
            res.configs@.len() == 0,
            !res.repeat_pattern,
            is_default_column(res.default_config),
    {
        ColumnConfigArray {
            configs: Vec::new(),
            repeat_pattern: false,
            default_config: ColumnConfig::default(),
        }
    }
}

/// The settings for column `i`: the default when none are given; else the list cycled, or
/// the list's entry and the default past its end.
pub open spec fn config_at(a: ColumnConfigArray, i: nat) -> ColumnConfig {
    if a.configs@.len() == 0 {
        a.default_config
    } else if a.repeat_pattern {
        a.configs@[(i % a.configs@.len()) as int]
    } else if i < a.configs@.len() {
        a.configs@[i as int]
    } else {
        a.default_config
    }
}

/// The settings of the first `n` columns.
pub open spec fn generated_configs(a: ColumnConfigArray, n: nat) -> Seq<ColumnConfig> {
    Seq::new(n, |i: int| config_at(a, i as nat))
}

impl ColumnConfigArray {
    /// The given settings, not cycled, with the default column after them.
    pub fn new(configs: Vec<ColumnConfig>) -> (res: Self)
        ensures
            res.configs == configs,
            !res.repeat_pattern,
            is_default_column(res.default_config),
    {
        ColumnConfigArray { configs, repeat_pattern: false, default_config: ColumnConfig::default() }
    }

    /// The same list, cycled.
    pub fn with_repeat_pattern(self) -> (res: Self)
        ensures
            res == (ColumnConfigArray { repeat_pattern: true, ..self }),
    {
        ColumnConfigArray { repeat_pattern: true, ..self }
    }

    /// The same list with another default.
    pub fn with_default_config(self, config: ColumnConfig) -> (res: Self)
        ensures
            res == (ColumnConfigArray { default_config: config, ..self }),
    {
        ColumnConfigArray { default_config: config, ..self }
    }

    /// The settings for column `column_index` (see `config_at`).
    pub fn get_config(&self, column_index: usize) -> (res: &ColumnConfig)
        ensures
            *res == config_at(*self, column_index as nat),
    {
        if self.configs.len() == 0 {
            return &self.default_config;
        }
        if self.repeat_pattern {
            &self.configs[column_index % self.configs.len()]
        } else if column_index < self.configs.len() {
            &self.configs[column_index]
        } else {
            &self.default_config
        }
    }

    /// The settings of the first `column_count` columns.
    pub fn generate_configs(&self, column_count: usize) -> (res: Vec<ColumnConfig>)
        ensures
            res@ == generated_configs(*self, column_count as nat),
    {
        let mut result: Vec<ColumnConfig> = Vec::new();
        let mut i: usize = 0;
        while i < column_count
            invariant
                i <= column_count,
                result@ == generated_configs(*self, column_count as nat).take(i as int),
            decreases column_count - i,
        {
            result.push(self.get_config(i).duplicate());
            i = i + 1;
            assert(result@ =~= generated_configs(*self, column_count as nat).take(i as int));
        }
        assert(generated_configs(*self, column_count as nat).take(i as int) =~= generated_configs(
            *self,
            column_count as nat,
        ));
        result
    }

    /// The same list with one more entry.
    pub fn add_config(self, config: ColumnConfig) -> (res: Self)
        ensures
            res.configs@ == self.configs@.push(config),
            res.repeat_pattern == self.repeat_pattern,
            res.default_config == self.default_config,
    {
        let mut s = self;
        s.configs.push(config);
        s
    }

    /// The given settings, copied (see `new`).
    pub fn from_slice(configs: &[ColumnConfig]) -> (res: Self)
        ensures
            res.configs@ == configs@,
            !res.repeat_pattern,
            is_default_column(res.default_config),
    {
        let mut v: Vec<ColumnConfig> = Vec::new();
        let mut i: usize = 0;
        while i < configs.len()
            invariant
                i <= configs.len(),
                v@ == configs@.take(i as int),
            decreases configs.len() - i,
        {
            v.push(configs[i].duplicate());
            i = i + 1;
            assert(v@ =~= configs@.take(i as int));
        }
        assert(configs@.take(i as int) =~= configs@);
        Self::new(v)
    }
}

/// Builds a `ColumnConfigArray` column by column.
#[derive(Debug)]
pub struct ColumnArrayBuilder {
    pub configs: Vec<ColumnConfig>,
    pub repeat_pattern: bool,
    pub default_config: ColumnConfig,
}

impl Default for ColumnArrayBuilder {
    /// No columns yet.
    fn default() -> (res: Self)
        ensures
            res.configs@.len() == 0,
            !res.repeat_pattern,
            is_default_column(res.default_config),
    {
        Self::new()
    }
}

/// A column of the given width and alignment, otherwise default.
pub open spec fn sized_column(c: ColumnConfig, width: usize, alignment: Alignment) -> bool {
    &&& c.width == Some(width)
    &&& c.alignment == alignment
    &&& is_default_column(ColumnConfig { width: None, alignment: Alignment::Left, ..c })
}

/// A column of the given width and alignment.
fn sized(width: usize, alignment: Alignment) -> (res: ColumnConfig)
    ensures
        sized_column(res, width, alignment),
{
    ColumnConfig::new().with_width(width).with_alignment(alignment)
}

impl ColumnArrayBuilder {
    /// No columns yet, not cycled, the default column after them.
    pub fn new() -> (res: Self)
        ensures
            res.configs@.len() == 0,
            !res.repeat_pattern,
            is_default_column(res.default_config),
    {
        ColumnArrayBuilder {
            configs: Vec::new(),
            repeat_pattern: false,
            default_config: ColumnConfig::default(),
        }
    }

    /// One more column.
    pub fn add_column(self, config: ColumnConfig) -> (res: Self)
        ensures
            res.configs@ == self.configs@.push(config),
            res.repeat_pattern == self.repeat_pattern,
            res.default_config == self.default_config,
    {
        let mut s = self;
        s.configs.push(config);
        s
    }

    /// More columns.
    pub fn add_columns(self, configs: Vec<ColumnConfig>) -> (res: Self)
        ensures
            res.configs@ == self.configs@ + configs@,
            res.repeat_pattern == self.repeat_pattern,
            res.default_config == self.default_config,
    {
        let mut s = self;
        let mut more = configs;
        s.configs.append(&mut more);
        s
    }

    /// The columns cycled.
    pub fn with_repeat_pattern(self) -> (res: Self)
        ensures
            res == (ColumnArrayBuilder { repeat_pattern: true, ..self }),
    {
        ColumnArrayBuilder { repeat_pattern: true, ..self }
    }

    /// Another default column.
    pub fn with_default_config(self, config: ColumnConfig) -> (res: Self)
        ensures
            res == (ColumnArrayBuilder { default_config: config, ..self }),
    {
        ColumnArrayBuilder { default_config: config, ..self }
    }

    /// One more left-aligned column of the given width.
    pub fn left_column(self, width: usize) -> (res: Self)
        ensures
            res.configs@.len() == self.configs@.len() + 1,
            res.configs@.take(self.configs@.len() as int) == self.configs@,
            sized_column(res.configs@.last(), width, Alignment::Left),
            res.repeat_pattern == self.repeat_pattern,
            res.default_config == self.default_config,
    {
        let r = self.add_column(sized(width, Alignment::Left));
        assert(r.configs@.take(self.configs@.len() as int) =~= self.configs@);
        r
    }

    /// One more centred column of the given width.
    pub fn center_column(self, width: usize) -> (res: Self)
        ensures
            res.configs@.len() == self.configs@.len() + 1,
            res.configs@.take(self.configs@.len() as int) == self.configs@,
            sized_column(res.configs@.last(), width, Alignment::Center),
            res.repeat_pattern == self.repeat_pattern,
            res.default_config == self.default_config,
    {
        let r = self.add_column(sized(width, Alignment::Center));
        assert(r.configs@.take(self.configs@.len() as int) =~= self.configs@);
        r
    }

    /// One more right-aligned column of the given width.
    pub fn right_column(self, width: usize) -> (res: Self)
        ensures
            res.configs@.len() == self.configs@.len() + 1,
            res.configs@.take(self.configs@.len() as int) == self.configs@,
            sized_column(res.configs@.last(), width, Alignment::Right),
            res.repeat_pattern == self.repeat_pattern,
            res.default_config == self.default_config,
    {
        let r = self.add_column(sized(width, Alignment::Right));
        assert(r.configs@.take(self.configs@.len() as int) =~= self.configs@);
        r
    }

    /// One more column per width, left-aligned at even and right-aligned at odd positions.
    pub fn alternating_alignment(self, widths: &[usize]) -> (res: Self)
        ensures
            res.configs@.len() == self.configs@.len() + widths@.len(),
            res.configs@.take(self.configs@.len() as int) == self.configs@,
            forall|k: int|
                0 <= k < widths@.len() ==> sized_column(
                    #[trigger] res.configs@[self.configs@.len() + k],
                    widths@[k],
                    if k % 2 == 0 {
                        Alignment::Left
                    } else {
                        Alignment::Right
                    },
                ),
            res.repeat_pattern == self.repeat_pattern,
            res.default_config == self.default_config,
    {
        let ghost n0 = self.configs@.len();
        let ghost c0 = self.configs@;
        let mut s = self;
        let mut i: usize = 0;
        while i < widths.len()
            invariant
                i <= widths.len(),
                s.configs@.len() == n0 + i,
                s.configs@.take(n0 as int) == c0,
                s.repeat_pattern == self.repeat_pattern,
                s.default_config == self.default_config,
                forall|k: int|
                    0 <= k < i ==> sized_column(
                        #[trigger] s.configs@[n0 + k],
                        widths@[k],
                        if k % 2 == 0 {
                            Alignment::Left
                        } else {
                            Alignment::Right
                        },
                    ),
            decreases widths.len() - i,
        {
            let alignment = if i % 2 == 0 {
                Alignment::Left
            } else {
                Alignment::Right
            };
            let ghost prev = s.configs@;
            s = s.add_column(sized(widths[i], alignment));
            assert(s.configs@.take(n0 as int) =~= prev.take(n0 as int));
            i = i + 1;
        }
        s
    }

    /// The array of the columns given.
    pub fn build(self) -> (res: ColumnConfigArray)
        ensures
            res.configs == self.configs,
            res.repeat_pattern == self.repeat_pattern,
            res.default_config == self.default_config,
    {
        ColumnConfigArray {
            configs: self.configs,
            repeat_pattern: self.repeat_pattern,
            default_config: self.default_config,
        }
    }
}

/// Draws a plain table with the array's settings for its columns.
pub fn render_table_with_column_array(
    data: &TableData,
    border: &BorderChars,
    options: &RenderOptions,
    column_array: &ColumnConfigArray,
) -> (res: Result<String, String>)
    requires
        plain_cells_ok(
            table_view(data.rows@),
            generated_configs(*column_array, column_count_of(table_view(data.rows@))),
        ),
    ensures
        first_bad_row(table_view(data.rows@), 0, column_count_of(table_view(data.rows@))) is Some
            <==> res is Err,
        res matches Ok(s) ==> s@ == plain_table_spec(
            table_view(data.rows@),
            *border,
            *options,
            generated_configs(*column_array, column_count_of(table_view(data.rows@))),
        ),
{
    let column_configs = column_array.generate_configs(data.column_count());
    render_table_with_column_config(data, border, options, column_configs.as_slice())
}

} // verus!
