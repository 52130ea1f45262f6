use crate::pipeline::calculator::nats;
use crate::pipeline::renderer::{border_line_spec, BorderType};
use crate::text::{join_seq, push_str, repeat_seq, repeat_str};
use crate::types::BorderConfig;
use vstd::prelude::*;

verus! {

/// Draws the horizontal lines of a table with given border pieces and column widths.
pub struct BorderRenderer {
    config: BorderConfig,
    column_widths: Vec<usize>,
}

impl BorderRenderer {
    /// The border pieces drawn with.
    pub closed spec fn border(&self) -> BorderConfig {
        self.config
    }

    /// The column widths drawn with.
    pub closed spec fn widths(&self) -> Seq<nat> {
        nats(self.column_widths@)
    }

    /// A renderer for the given pieces and widths.
    pub fn new(config: BorderConfig, column_widths: Vec<usize>) -> (res: Self)
        ensures
            res.border() == config,
            res.widths() == nats(column_widths@),
    {
        BorderRenderer { config, column_widths }
    }

    /// The top line (see `border_line_spec`).
    pub fn draw_top_border(&self) -> (res: String)
        ensures
            res@ == border_line_spec(self.widths(), self.border(), BorderType::Top),
    {
        self.draw_horizontal_border(
            self.config.top_left.as_str(),
            self.config.top_right.as_str(),
            self.config.top_body.as_str(),
            self.config.top_join.as_str(),
        )
    }

    /// The bottom line (see `border_line_spec`).
    pub fn draw_bottom_border(&self) -> (res: String)
        ensures
            res@ == border_line_spec(self.widths(), self.border(), BorderType::Bottom),
    {
        self.draw_horizontal_border(
            self.config.bottom_left.as_str(),
            self.config.bottom_right.as_str(),
            self.config.bottom_body.as_str(),
            self.config.bottom_join.as_str(),
        )
    }

    /// A line between rows (see `border_line_spec`).
    pub fn draw_separator(&self) -> (res: String)
        ensures
            res@ == border_line_spec(self.widths(), self.border(), BorderType::Join),
    {
        self.draw_horizontal_border(
            self.config.join_left.as_str(),
            self.config.join_right.as_str(),
            self.config.join_body.as_str(),
            self.config.join_join.as_str(),
        )
    }

    /// `left`, the run `body` repeated as wide as each column with `join` between columns,
    /// `right`.
    fn draw_horizontal_border(&self, left: &str, right: &str, body: &str, join: &str) -> (res: String)
        ensures
            res@ == left@ + join_seq(
                Seq::new(self.widths().len(), |i: int| repeat_seq(body@, self.widths()[i])),
                join@,
            ) + right@,
    {
        let ghost runs = Seq::new(self.widths().len(), |i: int| repeat_seq(body@, self.widths()[i]));
        let mut result = String::new();
        push_str(&mut result, left);
        let ghost start = result@;
        let n = self.column_widths.len();
        let mut i: usize = 0;
        while i < n
            invariant
                i <= n == self.column_widths@.len(),
                runs == Seq::new(self.widths().len(), |k: int| repeat_seq(body@, self.widths()[k])),
                self.widths().len() == n,
                result@ == start + join_seq(runs.take(i as int), join@) + (if 0 < i < n { join@ } else { Seq::empty() }),
            decreases n - i,
        {
            let ghost pre = runs.take(i as int);
            let run = repeat_str(body, self.column_widths[i]);
            assert(run@ == runs[i as int]);
            push_str(&mut result, run.as_str());
            if i < n - 1 {
                push_str(&mut result, join);
            }
            i = i + 1;
            assert(runs.take(i as int).drop_last() =~= pre);
            assert(result@ =~= start + join_seq(runs.take(i as int), join@) + (if 0 < i < n { join@ } else { Seq::empty() }));
        }
        assert(runs.take(i as int) =~= runs);
        push_str(&mut result, right);
        result
    }
}

} // verus!
