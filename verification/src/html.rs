use crate::builder::{csv_parse, csv_rows};
use crate::text::{
    char_index_before, char_index_from, chars_of, concat2, concat3, contains_spec, copy_strings,
    find_char, join_seq, lines, lines_of, owned, push_str, replace_spec, rfind_char, str_contains,
    str_replace, string_from_chars, trim, trim_spec, views,
};
use crate::types::Row;
use crate::table_data::TableData;
use crate::utils::formatting::table_view;
use vstd::prelude::*;

verus! {

/// How a table is written as HTML.
#[derive(Debug, Clone)]
pub struct HtmlConfig {
    pub table_class: Option<String>,
    pub table_id: Option<String>,
    pub table_style: Option<String>,
    pub include_thead: bool,
    pub include_tbody: bool,
    pub cell_padding: Option<String>,
    pub border_collapse: bool,
    pub responsive: bool,
    pub striped_rows: bool,
    pub hover_effect: bool,
    pub custom_attributes: Vec<(String, String)>,
}

/// The settings of an `HtmlConfig`, with texts as character sequences.
pub struct HtmlSettings {
    pub table_class: Option<Seq<char>>,
    pub table_id: Option<Seq<char>>,
    pub table_style: Option<Seq<char>>,
    pub include_thead: bool,
    pub include_tbody: bool,
    pub cell_padding: Option<Seq<char>>,
    pub border_collapse: bool,
    pub responsive: bool,
    pub striped_rows: bool,
    pub hover_effect: bool,
    pub custom_attributes: Seq<(Seq<char>, Seq<char>)>,
}

/// The view of an optional text.
pub open spec fn opt_view(o: Option<String>) -> Option<Seq<char>> {
    match o {
        Some(s) => Some(s@),
        None => None,
    }
}

/// The views of a list of name and value pairs.
pub open spec fn pair_views(v: Seq<(String, String)>) -> Seq<(Seq<char>, Seq<char>)> {
    v.map_values(|p: (String, String)| (p.0@, p.1@))
}

impl View for HtmlConfig {
    type V = HtmlSettings;

    open spec fn view(&self) -> HtmlSettings {
        HtmlSettings {
            table_class: opt_view(self.table_class),
            table_id: opt_view(self.table_id),
            table_style: opt_view(self.table_style),
            include_thead: self.include_thead,
            include_tbody: self.include_tbody,
            cell_padding: opt_view(self.cell_padding),
            border_collapse: self.border_collapse,
            responsive: self.responsive,
            striped_rows: self.striped_rows,
            hover_effect: self.hover_effect,
            custom_attributes: pair_views(self.custom_attributes@),
        }
    }
}

/// The default settings: no class, id or style, a head and a body, collapsed borders, no
/// cell padding, no responsive wrapper, stripes or hover effect, no extra attributes.
pub open spec fn default_html() -> HtmlSettings {
    HtmlSettings {
        table_class: None,
        table_id: None,
        table_style: None,
        include_thead: true,
        include_tbody: true,
        cell_padding: None,
        border_collapse: true,
        responsive: false,
        striped_rows: false,
        hover_effect: false,
        custom_attributes: Seq::empty(),
    }
}

impl Default for HtmlConfig {
    fn default() -> (res: Self)
        ensures
            res@ == default_html(),
    {
        let res = HtmlConfig {
            table_class: None,
            table_id: None,
            table_style: None,
            include_thead: true,
            include_tbody: true,
            cell_padding: None,
            border_collapse: true,
            responsive: false,
            striped_rows: false,
            hover_effect: false,
            custom_attributes: Vec::new(),
        };
        assert(pair_views(res.custom_attributes@) =~= Seq::empty());
        res
    }
}

impl HtmlConfig {
    /// The default settings.
    pub fn new() -> (res: Self)
        ensures
            res@ == default_html(),
    {
        Self::default()
    }

    /// The same settings with the given class.
    pub fn with_class(self, class: &str) -> (res: Self)
        ensures
            res@ == (HtmlSettings { table_class: Some(class@), ..self@ }),
    {
        HtmlConfig { table_class: Some(owned(class)), ..self }
    }

    /// The same settings with the given id.
    pub fn with_id(self, id: &str) -> (res: Self)
        ensures
            res@ == (HtmlSettings { table_id: Some(id@), ..self@ }),
    {
        HtmlConfig { table_id: Some(owned(id)), ..self }
    }

    /// The same settings with the given style.
    pub fn with_style(self, style: &str) -> (res: Self)
        ensures
            res@ == (HtmlSettings { table_style: Some(style@), ..self@ }),
    {
        HtmlConfig { table_style: Some(owned(style)), ..self }
    }

    /// The same settings with the given cell padding.
    pub fn with_cell_padding(self, padding: &str) -> (res: Self)
        ensures
            res@ == (HtmlSettings { cell_padding: Some(padding@), ..self@ }),
    {
        HtmlConfig { cell_padding: Some(owned(padding)), ..self }
    }

    /// The same settings with the responsive wrapper.
    pub fn with_responsive(self) -> (res: Self)
        ensures
            res@ == (HtmlSettings { responsive: true, ..self@ }),
    {
        HtmlConfig { responsive: true, ..self }
    }

    /// The same settings with striped rows.
    pub fn with_striped_rows(self) -> (res: Self)
        ensures
            res@ == (HtmlSettings { striped_rows: true, ..self@ }),
    {
        HtmlConfig { striped_rows: true, ..self }
    }

    /// The same settings with the hover effect.
    pub fn with_hover_effect(self) -> (res: Self)
        ensures
            res@ == (HtmlSettings { hover_effect: true, ..self@ }),
    {
        HtmlConfig { hover_effect: true, ..self }
    }

    /// The same settings without a head.
    pub fn without_thead(self) -> (res: Self)
        ensures
            res@ == (HtmlSettings { include_thead: false, ..self@ }),
    {
        HtmlConfig { include_thead: false, ..self }
    }

    /// The same settings without a body element.
    pub fn without_tbody(self) -> (res: Self)
        ensures
            res@ == (HtmlSettings { include_tbody: false, ..self@ }),
    {
        HtmlConfig { include_tbody: false, ..self }
    }

    /// The same settings without collapsed borders.
    pub fn without_border_collapse(self) -> (res: Self)
        ensures
            res@ == (HtmlSettings { border_collapse: false, ..self@ }),
    {
        HtmlConfig { border_collapse: false, ..self }
    }

    /// The same settings with one more attribute.
    pub fn with_attribute(self, name: &str, value: &str) -> (res: Self)
        ensures
            res@ == (HtmlSettings { custom_attributes: self@.custom_attributes.push((name@, value@)), ..self@ }),
    {
        let mut s = self;
        let ghost before = s.custom_attributes@;
        s.custom_attributes.push((owned(name), owned(value)));
        assert(pair_views(s.custom_attributes@) =~= pair_views(before).push((name@, value@)));
        s
    }

    /// The Bootstrap look: its table classes, the responsive wrapper, stripes and hover.
    pub fn bootstrap() -> (res: Self)
        ensures
            res@ == (HtmlSettings {
                table_class: Some("table table-striped table-hover"@),
                responsive: true,
                striped_rows: true,
                hover_effect: true,
                ..default_html()
            }),
    {
        Self::new().with_class("table table-striped table-hover").with_responsive().with_striped_rows().with_hover_effect()
    }

    /// The Material look: its table class, a shadow and rounded corners, 12px padding.
    pub fn material() -> (res: Self)
        ensures
            res@ == (HtmlSettings {
                table_class: Some("mdc-data-table__table"@),
                table_style: Some("box-shadow: 0 2px 4px rgba(0,0,0,0.1); border-radius: 4px;"@),
                cell_padding: Some("12px"@),
                ..default_html()
            }),
    {
        Self::new().with_class("mdc-data-table__table").with_style(
            "box-shadow: 0 2px 4px rgba(0,0,0,0.1); border-radius: 4px;",
        ).with_cell_padding("12px")
    }

    /// A light grey border and 8px padding.
    pub fn minimal() -> (res: Self)
        ensures
            res@ == (HtmlSettings {
                table_style: Some("border: 1px solid #ddd; border-collapse: collapse;"@),
                cell_padding: Some("8px"@),
                ..default_html()
            }),
    {
        Self::new().with_style("border: 1px solid #ddd; border-collapse: collapse;").with_cell_padding("8px")
    }

    /// Dark colours and stripes.
    pub fn dark() -> (res: Self)
        ensures
            res@ == (HtmlSettings {
                table_class: Some("table-dark"@),
                table_style: Some("background-color: #2d3748; color: #e2e8f0; border-color: #4a5568;"@),
                striped_rows: true,
                ..default_html()
            }),
    {
        Self::new().with_class("table-dark").with_style(
            "background-color: #2d3748; color: #e2e8f0; border-color: #4a5568;",
        ).with_striped_rows()
    }
}

/// The escape of one character: `&`, `<`, `>`, `"` and `'` as entities, any other character
/// as itself.
pub open spec fn escape_char(c: char) -> Seq<char> {
    if c == '&' {
        "&amp;"@
    } else if c == '<' {
        "&lt;"@
    } else if c == '>' {
        "&gt;"@
    } else if c == '"' {
        "&quot;"@
    } else if c == '\'' {
        "&#x27;"@
    } else {
        seq![c]
    }
}

/// A text with each character escaped (see `escape_char`).
pub open spec fn escape_spec(s: Seq<char>) -> Seq<char>
    decreases s.len(),
{
    if s.len() == 0 {
        Seq::empty()
    } else {
        escape_spec(s.drop_last()) + escape_char(s.last())
    }
}

/// The text with the HTML special characters as entities (see `escape_spec`).
pub fn html_escape(text: &str) -> (res: String)
    ensures
        res@ == escape_spec(text@),
{
    let v = chars_of(text);
    let mut out = String::new();
    let mut i: usize = 0;
    while i < v.len()
        invariant
            i <= v@.len(),
            v@ == text@,
            out@ == escape_spec(v@.take(i as int)),
        decreases v.len() - i,
    {
        let c = v[i];
        if c == '&' {
            push_str(&mut out, "&amp;");
        } else if c == '<' {
            push_str(&mut out, "&lt;");
        } else if c == '>' {
            push_str(&mut out, "&gt;");
        } else if c == '"' {
            push_str(&mut out, "&quot;");
        } else if c == '\'' {
            push_str(&mut out, "&#x27;");
        } else {
            crate::text::push_char(&mut out, c);
        }
        assert(v@.take(i + 1).drop_last() =~= v@.take(i as int));
        i = i + 1;
    }
    assert(v@.take(i as int) =~= v@);
    out
}

/// What `html_unescape` gives: the entities for `&`, `<`, `>`, `"` and `'` replaced one
/// after another, `&amp;` first.
pub open spec fn unescape_spec(s: Seq<char>) -> Seq<char> {
    replace_spec(
        replace_spec(
            replace_spec(
                replace_spec(replace_spec(replace_spec(s, "&amp;"@, "&"@), "&lt;"@, "<"@), "&gt;"@, ">"@),
                "&quot;"@,
                "\""@,
            ),
            "&#x27;"@,
            "'"@,
        ),
        "&#39;"@,
        "'"@,
    )
}

/// The text with the basic entities replaced by their characters (see `unescape_spec`).
pub fn html_unescape(text: &str) -> (res: String)
    ensures
        res@ == unescape_spec(text@),
{
    proof {
        reveal_strlit("&amp;");
        reveal_strlit("&lt;");
        reveal_strlit("&gt;");
        reveal_strlit("&quot;");
        reveal_strlit("&#x27;");
        reveal_strlit("&#39;");
    }
    let a = str_replace(text, "&amp;", "&");
    let b = str_replace(a.as_str(), "&lt;", "<");
    let c = str_replace(b.as_str(), "&gt;", ">");
    let d = str_replace(c.as_str(), "&quot;", "\"");
    let e = str_replace(d.as_str(), "&#x27;", "'");
    str_replace(e.as_str(), "&#39;", "'")
}


/// The style rule of the responsive wrapper.
pub open spec fn responsive_css() -> Seq<char> {
    ".responsive-table {\n  overflow-x: auto;\n}\n@media (max-width: 768px) {\n  .responsive-table table {\n    font-size: 14px;\n  }\n}\n"@
}

/// The style rule of striped rows.
pub open spec fn striped_css() -> Seq<char> {
    "table tr:nth-child(even) {\n  background-color: #f8f9fa;\n}\n"@
}

/// The style rule of the hover effect.
pub open spec fn hover_css() -> Seq<char> {
    "table tr:hover {\n  background-color: #e9ecef;\n  transition: background-color 0.15s ease;\n}\n"@
}

/// The style block written before a table: one rule per feature asked for.
pub open spec fn css_spec(c: HtmlSettings) -> Seq<char> {
    "<style>\n"@ + (if c.responsive { responsive_css() } else { Seq::empty() }) + (if c.striped_rows {
        striped_css()
    } else {
        Seq::empty()
    }) + (if c.hover_effect { hover_css() } else { Seq::empty() }) + "</style>\n"@
}

/// The parts of the table's style: collapsed borders, the cell padding and the custom style,
/// those that are set.
pub open spec fn style_parts(c: HtmlSettings) -> Seq<Seq<char>> {
    (if c.border_collapse { seq!["border-collapse: collapse"@] } else { Seq::empty() }) + (match c.cell_padding {
        Some(p) => seq!["td, th { padding: "@ + p + "; }"@],
        None => Seq::empty(),
    }) + (match c.table_style {
        Some(st) => seq![st],
        None => Seq::empty(),
    })
}

/// The extra attributes, each as ` name="value"`, both escaped.
pub open spec fn attrs_spec(a: Seq<(Seq<char>, Seq<char>)>) -> Seq<char>
    decreases a.len(),
{
    if a.len() == 0 {
        Seq::empty()
    } else {
        attrs_spec(a.drop_last()) + " "@ + escape_spec(a.last().0) + "=\""@ + escape_spec(a.last().1) + "\""@
    }
}

/// The start of the opening: the responsive wrapper when asked for, then the `table` tag
/// with its id and class.
pub open spec fn tag_start_spec(c: HtmlSettings) -> Seq<char> {
    (if c.responsive { "<div class=\"responsive-table\">\n"@ } else { Seq::empty() }) + "<table"@ + (match c.table_id {
        Some(id) => " id=\""@ + escape_spec(id) + "\""@,
        None => Seq::empty(),
    }) + (match c.table_class {
        Some(cl) => " class=\""@ + escape_spec(cl) + "\""@,
        None => Seq::empty(),
    })
}

/// The style attribute: the style parts joined by `; `, when there are any.
pub open spec fn style_attr_spec(c: HtmlSettings) -> Seq<char> {
    if style_parts(c).len() > 0 {
        " style=\""@ + join_seq(style_parts(c), "; "@) + "\""@
    } else {
        Seq::empty()
    }
}

/// The opening of the table: the start of the tag, its style and extra attributes.
pub open spec fn opening_spec(c: HtmlSettings) -> Seq<char> {
    tag_start_spec(c) + style_attr_spec(c) + attrs_spec(c.custom_attributes) + ">\n"@
}

/// The cells of a row, each escaped between `open` and `close`.
pub open spec fn cells_spec(row: Seq<Seq<char>>, open: Seq<char>, close: Seq<char>) -> Seq<char>
    decreases row.len(),
{
    if row.len() == 0 {
        Seq::empty()
    } else {
        cells_spec(row.drop_last(), open, close) + open + escape_spec(row.last()) + close
    }
}

/// The head of the table with the cells of `row` as header cells.
pub open spec fn thead_spec(row: Seq<Seq<char>>) -> Seq<char> {
    "  <thead>\n"@ + "    <tr>\n"@ + cells_spec(row, "      <th>"@, "</th>\n"@) + "    </tr>\n"@ + "  </thead>\n"@
}

/// The indentation of a row: deeper inside a body element.
pub open spec fn row_indent(in_tbody: bool) -> Seq<char> {
    if in_tbody {
        "    "@
    } else {
        "  "@
    }
}

/// Row number `index` with its cells; with stripes, even rows get the class `even` and odd
/// rows `odd`.
pub open spec fn row_spec(c: HtmlSettings, row: Seq<Seq<char>>, index: nat, in_tbody: bool) -> Seq<char> {
    let ind = row_indent(in_tbody);
    ind + "<tr"@ + (if c.striped_rows {
        if index % 2 == 0 {
            " class=\"even\""@
        } else {
            " class=\"odd\""@
        }
    } else {
        Seq::empty()
    }) + ">\n"@ + cells_spec(row, ind + "  <td>"@, "</td>\n"@) + ind + "</tr>\n"@
}

/// The first `n` rows, numbered from 0.
pub open spec fn rows_spec(c: HtmlSettings, rows: Seq<Seq<Seq<char>>>, n: int, in_tbody: bool) -> Seq<char>
    decreases n,
{
    if n <= 0 {
        Seq::empty()
    } else {
        rows_spec(c, rows, n - 1, in_tbody) + row_spec(c, rows[n - 1], (n - 1) as nat, in_tbody)
    }
}

/// What rendering the rows `t` gives: nothing for no rows; else the style block when a
/// feature needs one, the opening, the head from the first row when asked for, the other
/// rows (in a body element when asked for) and the closing tag.
pub open spec fn render_spec(c: HtmlSettings, t: Seq<Seq<Seq<char>>>) -> Seq<char> {
    if t.len() == 0 {
        Seq::empty()
    } else {
        let rest = if c.include_thead { t.skip(1) } else { t };
        (if c.responsive || c.striped_rows || c.hover_effect { css_spec(c) } else { Seq::empty() })
            + opening_spec(c) + (if c.include_thead { thead_spec(t[0]) } else { Seq::empty() }) + (if c.include_tbody {
            "  <tbody>\n"@ + rows_spec(c, rest, rest.len() as int, true) + "  </tbody>\n"@
        } else {
            rows_spec(c, rest, rest.len() as int, false)
        }) + "</table>\n"@
    }
}

/// Writes tables as HTML.
pub struct HtmlTableRenderer {
    config: HtmlConfig,
}

impl HtmlTableRenderer {
    /// The settings the renderer writes with.
    pub closed spec fn settings(&self) -> HtmlSettings {
        self.config@
    }

    /// A renderer with the given settings.
    pub fn new(config: HtmlConfig) -> (res: Self)
        ensures
            res.settings() == config@,
    {
        HtmlTableRenderer { config }
    }

    /// The table as HTML (see `render_spec`); writing never fails.
    pub fn render(&self, data: &TableData) -> (res: Result<String, String>)
        ensures
            res matches Ok(s) && s@ == render_spec(self.settings(), table_view(data.rows@)),
    {
        let ghost t = table_view(data.rows@);
        let ghost c = self.config@;
        if data.is_empty() {
            return Ok(String::new());
        }
        let mut html = String::new();
        if self.config.responsive || self.config.striped_rows || self.config.hover_effect {
            let css = self.generate_css();
            push_str(&mut html, css.as_str());
        }
        self.write_table_opening(&mut html);
        let head = self.config.include_thead;
        if head {
            self.write_thead(&mut html, &data.rows[0]);
        }
        let start: usize = if head { 1 } else { 0 };
        let ghost rest = t.skip(start as int);
        assert(head ==> rest == t.skip(1));
        assert(!head ==> rest =~= t);
        if self.config.include_tbody {
            push_str(&mut html, "  <tbody>\n");
            self.write_rows(&mut html, data, start, true);
            push_str(&mut html, "  </tbody>\n");
        } else {
            self.write_rows(&mut html, data, start, false);
        }
        push_str(&mut html, "</table>\n");
        Ok(html)
    }

    /// The style block (see `css_spec`).
    fn generate_css(&self) -> (res: String)
        ensures
            res@ == css_spec(self.config@),
    {
        let mut css = owned("<style>\n");
        if self.config.responsive {
            push_str(&mut css, ".responsive-table {\n  overflow-x: auto;\n}\n@media (max-width: 768px) {\n  .responsive-table table {\n    font-size: 14px;\n  }\n}\n");
        }
        if self.config.striped_rows {
            push_str(&mut css, "table tr:nth-child(even) {\n  background-color: #f8f9fa;\n}\n");
        }
        if self.config.hover_effect {
            push_str(&mut css, "table tr:hover {\n  background-color: #e9ecef;\n  transition: background-color 0.15s ease;\n}\n");
        }
        push_str(&mut css, "</style>\n");
        css
    }

    /// Appends the opening (see `opening_spec`).
    fn write_table_opening(&self, html: &mut String)
        ensures
            final(html)@ == old(html)@ + opening_spec(self.config@),
    {
        let ghost h0 = html@;
        self.write_tag_start(html);
        let ghost h1 = html@;
        self.write_style(html);
        let ghost h2 = html@;
        self.write_attributes(html);
        let ghost h3 = html@;
        push_str(html, ">\n");
        assert(html@ =~= h0 + opening_spec(self.config@));
    }

    /// Appends the start of the opening (see `tag_start_spec`).
    fn write_tag_start(&self, html: &mut String)
        ensures
            final(html)@ == old(html)@ + tag_start_spec(self.config@),
    {
        let ghost h0 = html@;
        if self.config.responsive {
            push_str(html, "<div class=\"responsive-table\">\n");
        }
        push_str(html, "<table");
        let ghost h1 = html@;
        if let Some(id) = &self.config.table_id {
            let e = html_escape(id.as_str());
            push_str(html, " id=\"");
            push_str(html, e.as_str());
            push_str(html, "\"");
        }
        let ghost h2 = html@;
        if let Some(class) = &self.config.table_class {
            let e = html_escape(class.as_str());
            push_str(html, " class=\"");
            push_str(html, e.as_str());
            push_str(html, "\"");
        }
        assert(html@ =~= h0 + tag_start_spec(self.config@));
    }

    /// Appends the style attribute (see `style_attr_spec`).
    fn write_style(&self, html: &mut String)
        ensures
            final(html)@ == old(html)@ + style_attr_spec(self.config@),
    {
        let ghost c = self.config@;
        let mut parts: Vec<String> = Vec::new();
        if self.config.border_collapse {
            parts.push(owned("border-collapse: collapse"));
        }
        if let Some(padding) = &self.config.cell_padding {
            parts.push(concat3("td, th { padding: ", padding.as_str(), "; }"));
        }
        if let Some(custom) = &self.config.table_style {
            parts.push(owned(custom.as_str()));
        }
        assert(views(parts@) =~= style_parts(c));
        if parts.len() > 0 {
            let joined = crate::text::join_strings(&parts, "; ");
            let ghost h0 = html@;
            push_str(html, " style=\"");
            push_str(html, joined.as_str());
            push_str(html, "\"");
            assert(html@ =~= h0 + style_attr_spec(c));
        } else {
            assert(html@ =~= html@ + style_attr_spec(c));
        }
    }

    /// Appends the extra attributes (see `attrs_spec`).
    fn write_attributes(&self, html: &mut String)
        ensures
            final(html)@ == old(html)@ + attrs_spec(self.config@.custom_attributes),
    {
        let ghost c = self.config@;
        let ghost h1 = html@;
        let mut i: usize = 0;
        assert(html@ =~= h1 + attrs_spec(c.custom_attributes.take(0)));
        while i < self.config.custom_attributes.len()
            invariant
                i <= self.config.custom_attributes@.len(),
                c == self.config@,
                html@ == h1 + attrs_spec(c.custom_attributes.take(i as int)),
            decreases self.config.custom_attributes.len() - i,
        {
            let n = html_escape(self.config.custom_attributes[i].0.as_str());
            let v = html_escape(self.config.custom_attributes[i].1.as_str());
            let ghost hb = html@;
            push_str(html, " ");
            push_str(html, n.as_str());
            push_str(html, "=\"");
            push_str(html, v.as_str());
            push_str(html, "\"");
            assert(c.custom_attributes.take(i + 1).drop_last() =~= c.custom_attributes.take(i as int));
            assert(c.custom_attributes[i as int] == (self.config.custom_attributes@[i as int].0@, self.config.custom_attributes@[i as int].1@));
            assert(html@ =~= h1 + attrs_spec(c.custom_attributes.take(i + 1)));
            i = i + 1;
        }
        assert(c.custom_attributes.take(i as int) =~= c.custom_attributes);
    }

    /// Appends the head (see `thead_spec`).
    fn write_thead(&self, html: &mut String, header_row: &Vec<String>)
        ensures
            final(html)@ == old(html)@ + thead_spec(views(header_row@)),
    {
        push_str(html, "  <thead>\n");
        push_str(html, "    <tr>\n");
        write_cells(html, header_row, "      <th>", "</th>\n");
        push_str(html, "    </tr>\n");
        push_str(html, "  </thead>\n");
    }

    /// Appends the rows of `data` from `start` on, numbered from 0.
    fn write_rows(&self, html: &mut String, data: &TableData, start: usize, in_tbody: bool)
        requires
            start <= data.rows@.len(),
        ensures
            final(html)@ == old(html)@ + rows_spec(
                self.config@,
                table_view(data.rows@).skip(start as int),
                data.rows@.len() - start,
                in_tbody,
            ),
    {
        let ghost rest = table_view(data.rows@).skip(start as int);
        let ghost h0 = html@;
        let mut i: usize = start;
        while i < data.rows.len()
            invariant
                start <= i <= data.rows@.len(),
                rest == table_view(data.rows@).skip(start as int),
                html@ == h0 + rows_spec(self.config@, rest, i - start, in_tbody),
            decreases data.rows.len() - i,
        {
            assert(rest[i - start] == views(data.rows@[i as int]@));
            self.write_row(html, &data.rows[i], i - start, in_tbody);
            i = i + 1;
        }
    }

    /// Appends one row (see `row_spec`).
    fn write_row(&self, html: &mut String, row: &Vec<String>, index: usize, in_tbody: bool)
        ensures
            final(html)@ == old(html)@ + row_spec(self.config@, views(row@), index as nat, in_tbody),
    {
        let indent: &str = if in_tbody { "    " } else { "  " };
        push_str(html, indent);
        push_str(html, "<tr");
        if self.config.striped_rows {
            if index % 2 == 0 {
                push_str(html, " class=\"even\"");
            } else {
                push_str(html, " class=\"odd\"");
            }
        }
        push_str(html, ">\n");
        let open = concat2(indent, "  <td>");
        write_cells(html, row, open.as_str(), "</td>\n");
        push_str(html, indent);
        push_str(html, "</tr>\n");
    }
}

/// Appends each cell of `row`, escaped, between `open` and `close`.
fn write_cells(html: &mut String, row: &Vec<String>, open: &str, close: &str)
    ensures
        final(html)@ == old(html)@ + cells_spec(views(row@), open@, close@),
{
    let ghost h0 = html@;
    let mut i: usize = 0;
    while i < row.len()
        invariant
            i <= row@.len(),
            html@ == h0 + cells_spec(views(row@).take(i as int), open@, close@),
        decreases row.len() - i,
    {
        let e = html_escape(row[i].as_str());
        push_str(html, open);
        push_str(html, e.as_str());
        push_str(html, close);
        assert(views(row@).take(i + 1).drop_last() =~= views(row@).take(i as int));
        i = i + 1;
    }
    assert(views(row@).take(i as int) =~= views(row@));
}

/// The table as HTML with the default settings.
pub fn table_to_html(data: &TableData) -> (res: Result<String, String>)
    ensures
        res matches Ok(s) && s@ == render_spec(default_html(), table_view(data.rows@)),
{
    HtmlTableRenderer::new(HtmlConfig::default()).render(data)
}

/// The table as HTML with the given settings.
pub fn table_to_html_with_config(data: &TableData, config: HtmlConfig) -> (res: Result<String, String>)
    ensures
        res matches Ok(s) && s@ == render_spec(config@, table_view(data.rows@)),
{
    HtmlTableRenderer::new(config).render(data)
}

/// The table as HTML with the Bootstrap look.
pub fn table_to_bootstrap_html(data: &TableData) -> (res: Result<String, String>)
    ensures
        res matches Ok(s) && s@ == render_spec(
            HtmlSettings {
                table_class: Some("table table-striped table-hover"@),
                responsive: true,
                striped_rows: true,
                hover_effect: true,
                ..default_html()
            },
            table_view(data.rows@),
        ),
{
    HtmlTableRenderer::new(HtmlConfig::bootstrap()).render(data)
}

/// The table as HTML with the Material look.
pub fn table_to_material_html(data: &TableData) -> (res: Result<String, String>)
    ensures
        res matches Ok(s) && s@ == render_spec(
            HtmlSettings {
                table_class: Some("mdc-data-table__table"@),
                table_style: Some("box-shadow: 0 2px 4px rgba(0,0,0,0.1); border-radius: 4px;"@),
                cell_padding: Some("12px"@),
                ..default_html()
            },
            table_view(data.rows@),
        ),
{
    HtmlTableRenderer::new(HtmlConfig::material()).render(data)
}


/// The start of a complete document, up to its title.
pub open spec fn document_head() -> Seq<char> {
    "<!DOCTYPE html>\n<html lang=\"en\">\n<head>\n  <meta charset=\"UTF-8\">\n  <meta name=\"viewport\" content=\"width=device-width, initial-scale=1.0\">\n  <title>"@
}

/// The part of a complete document between its title and its heading.
pub open spec fn document_middle() -> Seq<char> {
    "</title>\n  <style>\n    body { font-family: Arial, sans-serif; margin: 20px; }\n    table { width: 100%; border-collapse: collapse; }\n    th, td { padding: 12px; text-align: left; border-bottom: 1px solid #ddd; }\n    th { background-color: #f2f2f2; font-weight: bold; }\n    tr:hover { background-color: #f5f5f5; }\n  </style>\n</head>\n<body>\n  <h1>"@
}

/// The links that `with_bootstrap_cdn` puts before the end of the head.
pub open spec fn bootstrap_links() -> Seq<char> {
    "  <link href=\"https://cdn.jsdelivr.net/npm/bootstrap@5.3.0/dist/css/bootstrap.min.css\" rel=\"stylesheet\">\n  <script src=\"https://cdn.jsdelivr.net/npm/bootstrap@5.3.0/dist/js/bootstrap.bundle.min.js\"></script>\n</head>"@
}

/// What reading an HTML table has found so far.
pub struct ParseState {
    pub rows: Seq<Seq<Seq<char>>>,
    pub in_table: bool,
    pub in_row: bool,
    pub row: Seq<Seq<char>>,
    pub cell: Seq<char>,
    pub in_cell: bool,
    pub done: bool,
}

/// Nothing read yet.
pub open spec fn parse_start() -> ParseState {
    ParseState {
        rows: Seq::empty(),
        in_table: false,
        in_row: false,
        row: Seq::empty(),
        cell: Seq::empty(),
        in_cell: false,
        done: false,
    }
}

/// The content of a trimmed line of a cell: what stands between its first `>` and its last
/// `<` (nothing when they are the other way round), all after the `>` when there is no `<`,
/// or the whole line when there is no `>`.
pub open spec fn cell_content(tr: Seq<char>) -> Seq<char> {
    match char_index_from(tr, '>', 0) {
        Some(st) => match char_index_before(tr, '<', tr.len() as int) {
            Some(en) => if st < en {
                tr.subrange(st + 1int, en as int)
            } else {
                Seq::empty()
            },
            None => tr.skip(st + 1int),
        },
        None => tr,
    }
}

/// Reading one line of an HTML table, trimmed: `<table` starts the table, `</table>` ends the
/// reading (keeping an unfinished non-empty row), `<tr` starts a row, `</tr>` ends it
/// (keeping it when it has cells); inside a row, `<td` or `<th` starts a cell, the line's
/// content is added to the cell, and `</td>` or `</th>` ends the cell, unescaped.
pub open spec fn parse_step(s: ParseState, line: Seq<char>) -> ParseState {
    let tr = trim_spec(line);
    if s.done {
        s
    } else if contains_spec(tr, "<table"@) {
        ParseState { in_table: true, ..s }
    } else if contains_spec(tr, "</table>"@) {
        ParseState {
            rows: if s.in_row && s.row.len() > 0 { s.rows.push(s.row) } else { s.rows },
            done: true,
            ..s
        }
    } else if !s.in_table {
        s
    } else if contains_spec(tr, "<tr"@) {
        ParseState { in_row: true, row: Seq::empty(), ..s }
    } else if contains_spec(tr, "</tr>"@) {
        ParseState {
            rows: if s.row.len() > 0 { s.rows.push(s.row) } else { s.rows },
            in_row: false,
            row: Seq::empty(),
            ..s
        }
    } else if s.in_row {
        let starts = contains_spec(tr, "<td"@) || contains_spec(tr, "<th"@);
        let in_cell = starts || s.in_cell;
        let cell0 = if starts { Seq::empty() } else { s.cell };
        let cell1 = if in_cell && cell_content(tr).len() > 0 { cell0 + cell_content(tr) } else { cell0 };
        if contains_spec(tr, "</td>"@) || contains_spec(tr, "</th>"@) {
            ParseState { row: s.row.push(unescape_spec(cell1)), cell: Seq::empty(), in_cell: false, ..s }
        } else {
            ParseState { cell: cell1, in_cell, ..s }
        }
    } else {
        s
    }
}

/// The state after reading the first `n` lines.
pub open spec fn parse_upto(ls: Seq<Seq<char>>, n: int) -> ParseState
    decreases n,
{
    if n <= 0 {
        parse_start()
    } else {
        parse_step(parse_upto(ls, n - 1), ls[n - 1])
    }
}

/// The rows read from an HTML text.
pub open spec fn html_rows(html: Seq<char>) -> Seq<Seq<Seq<char>>> {
    parse_upto(lines_of(html), lines_of(html).len() as int).rows
}

/// The content of a trimmed cell line (see `cell_content`).
fn content_of(tr: &str) -> (res: String)
    ensures
        res@ == cell_content(tr@),
{
    let v = chars_of(tr);
    match find_char(&v, '>') {
        Some(st) => match rfind_char(&v, '<') {
            Some(en) => if st < en {
                string_from_chars(&v, st + 1, en)
            } else {
                String::new()
            },
            None => {
                let r = string_from_chars(&v, st + 1, v.len());
                assert(v@.subrange(st + 1, v@.len() as int) =~= v@.skip(st + 1));
                r
            },
        },
        None => owned(tr),
    }
}

/// Tools for whole HTML documents.
pub struct HtmlUtils;

impl HtmlUtils {
    /// A complete HTML document titled `title` (escaped, also as its heading) around
    /// `table_html`.
    pub fn complete_document(table_html: &str, title: &str) -> (res: String)
        ensures
            res@ == document_head() + escape_spec(title@) + document_middle() + escape_spec(title@)
                + "</h1>\n"@ + table_html@ + "\n</body>\n</html>"@,
    {
        let t = html_escape(title);
        let mut out = owned("<!DOCTYPE html>\n<html lang=\"en\">\n<head>\n  <meta charset=\"UTF-8\">\n  <meta name=\"viewport\" content=\"width=device-width, initial-scale=1.0\">\n  <title>");
        push_str(&mut out, t.as_str());
        push_str(&mut out, "</title>\n  <style>\n    body { font-family: Arial, sans-serif; margin: 20px; }\n    table { width: 100%; border-collapse: collapse; }\n    th, td { padding: 12px; text-align: left; border-bottom: 1px solid #ddd; }\n    th { background-color: #f2f2f2; font-weight: bold; }\n    tr:hover { background-color: #f5f5f5; }\n  </style>\n</head>\n<body>\n  <h1>");
        push_str(&mut out, t.as_str());
        push_str(&mut out, "</h1>\n");
        push_str(&mut out, table_html);
        push_str(&mut out, "\n</body>\n</html>");
        out
    }

    /// The document with the Bootstrap links put before each end of a head.
    pub fn with_bootstrap_cdn(html: &str) -> (res: String)
        ensures
            res@ == replace_spec(html@, "</head>"@, bootstrap_links()),
    {
        proof {
            reveal_strlit("</head>");
        }
        str_replace(
            html,
            "</head>",
            "  <link href=\"https://cdn.jsdelivr.net/npm/bootstrap@5.3.0/dist/css/bootstrap.min.css\" rel=\"stylesheet\">\n  <script src=\"https://cdn.jsdelivr.net/npm/bootstrap@5.3.0/dist/js/bootstrap.bundle.min.js\"></script>\n</head>",
        )
    }

    /// The rows of a CSV text (see `csv_rows`, `,` by default) as an HTML table, or the
    /// complaint that there are none.
    pub fn csv_to_html(csv: &str, separator: Option<&str>) -> (res: Result<String, String>)
        ensures
            csv_rows(csv@, match separator { Some(s) => s@, None => ","@ }).len() == 0 ==> (res matches Err(m) && m@ == "No valid data found in CSV"@),
            csv_rows(csv@, match separator { Some(s) => s@, None => ","@ }).len() > 0 ==> (res matches Ok(h)
                && h@ == render_spec(default_html(), csv_rows(csv@, match separator { Some(s) => s@, None => ","@ }))),
    {
        let sep: &str = match separator {
            Some(s) => s,
            None => ",",
        };
        let rows = csv_parse(csv, sep);
        if rows.len() == 0 {
            return Err(owned("No valid data found in CSV"));
        }
        let data = TableData::new(rows);
        table_to_html(&data)
    }

    /// The rows of the first table of a simple HTML text, one tag per line (see
    /// `parse_step`), or the complaint that there are none.
    pub fn html_to_table_data(html: &str) -> (res: Result<TableData, String>)
        ensures
            html_rows(html@).len() == 0 ==> (res matches Err(m) && m@ == "No table rows found in HTML"@),
            html_rows(html@).len() > 0 ==> (res matches Ok(d) && table_view(d.rows@) == html_rows(html@)),
    {
        let ls = lines(html);
        let ghost lv = lines_of(html@);
        let mut rows: Vec<Row> = Vec::new();
        let mut in_table = false;
        let mut in_row = false;
        let mut current_row: Vec<String> = Vec::new();
        let mut current_cell = String::new();
        let mut in_cell = false;
        let mut done = false;
        let mut i: usize = 0;
        assert(table_view(rows@) =~= Seq::<Seq<Seq<char>>>::empty());
        assert(views(current_row@) =~= Seq::<Seq<char>>::empty());
        assert(current_cell@ =~= Seq::<char>::empty());
        while i < ls.len()
            invariant
                i <= ls@.len(),
                views(ls@) == lv,
                lv == lines_of(html@),
                parse_upto(lv, i as int) == (ParseState {
                    rows: table_view(rows@),
                    in_table,
                    in_row,
                    row: views(current_row@),
                    cell: current_cell@,
                    in_cell,
                    done,
                }),
            decreases ls.len() - i,
        {
            let ghost before = parse_upto(lv, i as int);
            assert(lv[i as int] == ls@[i as int]@);
            if !done {
                let t = trim(ls[i].as_str());
                let tr = t.as_str();
                if str_contains(tr, "<table") {
                    in_table = true;
                } else if str_contains(tr, "</table>") {
                    if in_row && current_row.len() > 0 {
                        let ghost rb = table_view(rows@);
                        rows.push(copy_strings(&current_row));
                        assert(table_view(rows@) =~= rb.push(views(current_row@)));
                    }
                    done = true;
                } else if !in_table {
                } else if str_contains(tr, "<tr") {
                    in_row = true;
                    current_row = Vec::new();
                    assert(views(current_row@) =~= Seq::<Seq<char>>::empty());
                } else if str_contains(tr, "</tr>") {
                    if current_row.len() > 0 {
                        let ghost rb = table_view(rows@);
                        rows.push(copy_strings(&current_row));
                        assert(table_view(rows@) =~= rb.push(views(current_row@)));
                    }
                    in_row = false;
                    current_row = Vec::new();
                    assert(views(current_row@) =~= Seq::<Seq<char>>::empty());
                } else if in_row {
                    let starts = str_contains(tr, "<td") || str_contains(tr, "<th");
                    if starts {
                        in_cell = true;
                        current_cell = String::new();
                    }
                    if in_cell {
                        let content = content_of(tr);
                        if !crate::text::str_is_empty(content.as_str()) {
                            push_str(&mut current_cell, content.as_str());
                        }
                    }
                    if str_contains(tr, "</td>") || str_contains(tr, "</th>") {
                        let u = html_unescape(current_cell.as_str());
                        let ghost rb = views(current_row@);
                        current_row.push(u);
                        assert(views(current_row@) =~= rb.push(u@));
                        current_cell = String::new();
                        in_cell = false;
                    }
                }
            }
            assert(parse_step(before, lv[i as int]) == (ParseState {
                rows: table_view(rows@),
                in_table,
                in_row,
                row: views(current_row@),
                cell: current_cell@,
                in_cell,
                done,
            }));
            i = i + 1;
        }
        assert(i == lv.len());
        if rows.len() == 0 {
            return Err(owned("No table rows found in HTML"));
        }
        Ok(TableData::new(rows))
    }
}

} // verus!
