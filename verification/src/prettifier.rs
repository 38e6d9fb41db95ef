//! The colour scheme: which colour each category of token is written in, read
//! from a table of comma-separated values.
//!
//! The first line of the table names the columns, among them `BACKGROUND`,
//! `FOREGROUND` and `FONT`. Each further line is a row; its first cell names
//! the row. Where two columns or two rows bear one name, the later one counts.

use vstd::prelude::*;
use vstd::string::StringExecFns;
use crate::text::{decode, encode, same_chars};
use crate::token::{Token, TokenType, TokenView};

verus! {

/// The rows that a colour table must hold.
#[derive(Clone, Copy, Debug, PartialEq, Eq, Structural)]
pub enum ConfigRow {
    Default,
    Function,
    Variable,
    FloatConstant,
    IntConstant,
    Operator,
    Keyword,
}

/// The columns that a colour table must hold.
#[derive(Clone, Copy, Debug, PartialEq, Eq, Structural)]
pub enum ConfigColumn {
    Background,
    Foreground,
    Font,
}

/// A cell that the colour table lacks.
#[derive(Clone, Copy, Debug, PartialEq, Eq, Structural)]
pub struct ConfigError {
    pub row: ConfigRow,
    pub column: ConfigColumn,
}

impl ConfigRow {
    /// The name of the row as it stands in the table.
    pub open spec fn name(self) -> Seq<char> {
        match self {
            ConfigRow::Default => "DEFAULT"@,
            ConfigRow::Function => "FUNCTION"@,
            ConfigRow::Variable => "VARIABLE"@,
            ConfigRow::FloatConstant => "FLOAT_CONSTANT"@,
            ConfigRow::IntConstant => "INT_CONSTANT"@,
            ConfigRow::Operator => "OPERATOR"@,
            ConfigRow::Keyword => "KEYWORD"@,
        }
    }

    /// The name of the row as it stands in the table.
    pub fn as_str(&self) -> (s: &'static str)
        ensures
            s@ == self.name(),
    {
        match self {
            ConfigRow::Default => "DEFAULT",
            ConfigRow::Function => "FUNCTION",
            ConfigRow::Variable => "VARIABLE",
            ConfigRow::FloatConstant => "FLOAT_CONSTANT",
            ConfigRow::IntConstant => "INT_CONSTANT",
            ConfigRow::Operator => "OPERATOR",
            ConfigRow::Keyword => "KEYWORD",
        }
    }
}

impl ConfigColumn {
    /// The name of the column as it stands in the table.
    pub open spec fn name(self) -> Seq<char> {
        match self {
            ConfigColumn::Background => "BACKGROUND"@,
            ConfigColumn::Foreground => "FOREGROUND"@,
            ConfigColumn::Font => "FONT"@,
        }
    }

    /// The name of the column as it stands in the table.
    pub fn as_str(&self) -> (s: &'static str)
        ensures
            s@ == self.name(),
    {
        match self {
            ConfigColumn::Background => "BACKGROUND",
            ConfigColumn::Foreground => "FOREGROUND",
            ConfigColumn::Font => "FONT",
        }
    }
}

/// The pieces into which the occurrences of `sep` cut `s`: one more than there
/// are occurrences, empty pieces included.
pub open spec fn split(s: Seq<char>, sep: char) -> Seq<Seq<char>>
    decreases s.len(),
{
    if s.len() == 0 {
        seq![Seq::<char>::empty()]
    } else {
        let before = split(s.drop_last(), sep);
        if s.last() == sep {
            before.push(Seq::<char>::empty())
        } else {
            before.drop_last().push(before.last().push(s.last()))
        }
    }
}

/// The line without the carriage return that may end it.
pub open spec fn without_return(line: Seq<char>) -> Seq<char> {
    if line.len() > 0 && line.last() == '\r' {
        line.drop_last()
    } else {
        line
    }
}

/// The cells of a table, line by line.
pub open spec fn grid_of(text: Seq<char>) -> Seq<Seq<Seq<char>>> {
    split(text, '\n').map_values(|line: Seq<char>| split(without_return(line), ','))
}

/// The last of the first `n` cells that holds `name`.
pub open spec fn last_cell(cells: Seq<Seq<char>>, name: Seq<char>, n: int) -> Option<int>
    decreases n,
{
    if n <= 0 {
        None
    } else if cells[n - 1] == name {
        Some(n - 1)
    } else {
        last_cell(cells, name, n - 1)
    }
}

/// The last of the lines `1..n` whose first cell holds `name`.
pub open spec fn last_row(grid: Seq<Seq<Seq<char>>>, name: Seq<char>, n: int) -> Option<int>
    decreases n,
{
    if n <= 1 {
        None
    } else if grid[n - 1].len() > 0 && grid[n - 1][0] == name {
        Some(n - 1)
    } else {
        last_row(grid, name, n - 1)
    }
}

/// The cell in the row named `row`, under the column named `column`.
pub open spec fn cell_of(grid: Seq<Seq<Seq<char>>>, row: Seq<char>, column: Seq<char>) -> Option<
    Seq<char>,
> {
    if grid.len() == 0 {
        None
    } else {
        match (last_cell(grid[0], column, grid[0].len() as int), last_row(
            grid,
            row,
            grid.len() as int,
        )) {
            (Some(c), Some(r)) => if c < grid[r].len() {
                Some(grid[r][c])
            } else {
                None
            },
            _ => None,
        }
    }
}

/// A colour scheme as plain values.
pub struct PrettifierView {
    pub background: Seq<char>,
    pub foreground: Seq<char>,
    pub font: Seq<char>,
    pub function: Seq<char>,
    pub variable: Seq<char>,
    pub float_constant: Seq<char>,
    pub int_constant: Seq<char>,
    pub operator: Seq<char>,
    pub keyword: Seq<char>,
}

/// The nine cells that a colour scheme is made of, in the order in which they
/// are looked for.
pub open spec fn required_cells() -> Seq<ConfigError> {
    seq![
        ConfigError { row: ConfigRow::Default, column: ConfigColumn::Background },
        ConfigError { row: ConfigRow::Default, column: ConfigColumn::Foreground },
        ConfigError { row: ConfigRow::Default, column: ConfigColumn::Font },
        ConfigError { row: ConfigRow::Function, column: ConfigColumn::Foreground },
        ConfigError { row: ConfigRow::Variable, column: ConfigColumn::Foreground },
        ConfigError { row: ConfigRow::FloatConstant, column: ConfigColumn::Foreground },
        ConfigError { row: ConfigRow::IntConstant, column: ConfigColumn::Foreground },
        ConfigError { row: ConfigRow::Operator, column: ConfigColumn::Foreground },
        ConfigError { row: ConfigRow::Keyword, column: ConfigColumn::Foreground },
    ]
}

/// What the table holds in the place that `place` names.
pub open spec fn required_cell(grid: Seq<Seq<Seq<char>>>, place: ConfigError) -> Option<
    Seq<char>,
> {
    cell_of(grid, place.row.name(), place.column.name())
}

/// The first of the required cells from the `k`-th on that the table lacks.
pub open spec fn first_missing(grid: Seq<Seq<Seq<char>>>, k: int) -> Option<ConfigError>
    decreases required_cells().len() - k,
{
    if k < 0 || k >= required_cells().len() {
        None
    } else if required_cell(grid, required_cells()[k]) is None {
        Some(required_cells()[k])
    } else {
        first_missing(grid, k + 1)
    }
}

/// The colour scheme that the text of a table gives: its nine cells, or the
/// first of them that the table lacks.
pub open spec fn scheme_of(text: Seq<char>) -> Result<PrettifierView, ConfigError> {
    let grid = grid_of(text);
    match first_missing(grid, 0) {
        Some(missing) => Err(missing),
        None => Ok(
            PrettifierView {
                background: required_cell(grid, required_cells()[0])->0,
                foreground: required_cell(grid, required_cells()[1])->0,
                font: required_cell(grid, required_cells()[2])->0,
                function: required_cell(grid, required_cells()[3])->0,
                variable: required_cell(grid, required_cells()[4])->0,
                float_constant: required_cell(grid, required_cells()[5])->0,
                int_constant: required_cell(grid, required_cells()[6])->0,
                operator: required_cell(grid, required_cells()[7])->0,
                keyword: required_cell(grid, required_cells()[8])->0,
            },
        ),
    }
}

/// The colour in which a category is written.
pub open spec fn colour_of(scheme: PrettifierView, token_type: TokenType) -> Seq<char> {
    match token_type {
        TokenType::FUNCTION => scheme.function,
        TokenType::VARIABLE => scheme.variable,
        TokenType::FLOATCONSTANT => scheme.float_constant,
        TokenType::INTCONSTANT => scheme.int_constant,
        TokenType::OPERATOR => scheme.operator,
        TokenType::KEYWORD => scheme.keyword,
        _ => scheme.foreground,
    }
}

/// The categories that are written in bold: constants, operators, keywords.
pub open spec fn is_emphasised(token_type: TokenType) -> bool {
    token_type == TokenType::FLOATCONSTANT || token_type == TokenType::INTCONSTANT || token_type
        == TokenType::OPERATOR || token_type == TokenType::KEYWORD
}

/// `text` between the tags that colour it, and inside `style_open` and
/// `style_close`.
pub open spec fn formatted(
    color: Seq<char>,
    style_open: Seq<char>,
    text: Seq<char>,
    style_close: Seq<char>,
) -> Seq<char> {
    "<font color=\""@ + color + "\">"@ + style_open + text + style_close + "</font>"@
}

/// A token as it is written out: its text in the colour of its category, in
/// bold where the category is emphasised.
pub open spec fn prettified(scheme: PrettifierView, token: TokenView) -> Seq<char> {
    if is_emphasised(token.token_type) {
        formatted(colour_of(scheme, token.token_type), "<b>"@, token.text, "</b>"@)
    } else {
        formatted(colour_of(scheme, token.token_type), ""@, token.text, ""@)
    }
}

/// The tag that opens the body of the page.
pub open spec fn body_open_of(scheme: PrettifierView) -> Seq<char> {
    "<body bgcolor=\""@ + scheme.background + "\" text=\""@ + scheme.foreground + "\" link=\""@
        + scheme.foreground + "\" vlink=\""@ + scheme.foreground + "\">"@
}

/// The tag that sets the font of the page.
pub open spec fn font_open_of(scheme: PrettifierView) -> Seq<char> {
    "<font face="@ + scheme.font + ">"@
}

/// The cells of a row as plain values.
pub open spec fn cells_view(cells: Seq<Vec<char>>) -> Seq<Seq<char>> {
    cells.map_values(|cell: Vec<char>| cell@)
}

/// The rows of a table as plain values.
pub open spec fn rows_view(rows: Seq<Vec<Vec<char>>>) -> Seq<Seq<Seq<char>>> {
    rows.map_values(|row: Vec<Vec<char>>| cells_view(row@))
}

/// Cuts `s` at every occurrence of `sep`.
pub fn split_at(s: &Vec<char>, sep: char) -> (pieces: Vec<Vec<char>>)
    ensures
        cells_view(pieces@) == split(s@, sep),
{
    let mut pieces: Vec<Vec<char>> = Vec::new();
    let mut current: Vec<char> = Vec::new();
    let mut i: usize = 0;
    while i < s.len()
        invariant
            i <= s.len(),
            split(s@.take(i as int), sep) == cells_view(pieces@).push(current@),
        decreases s.len() - i,
    {
        assert(s@.take(i + 1).drop_last() == s@.take(i as int));
        if s[i] == sep {
            pieces.push(current);
            current = Vec::new();
        } else {
            current.push(s[i]);
        }
        i += 1;
    }
    assert(s@.take(s.len() as int) == s@);
    pieces.push(current);
    pieces
}

/// The cells of a table, line by line.
pub fn read_grid(text: &str) -> (rows: Vec<Vec<Vec<char>>>)
    ensures
        rows_view(rows@) == grid_of(text@),
{
    let chars = decode(text);
    let lines = split_at(&chars, '\n');
    let mut rows: Vec<Vec<Vec<char>>> = Vec::new();
    let mut i: usize = 0;
    while i < lines.len()
        invariant
            i <= lines.len(),
            cells_view(lines@) == split(text@, '\n'),
            rows_view(rows@) == grid_of(text@).take(i as int),
        decreases lines.len() - i,
    {
        let mut line = lines[i].clone();
        let n = line.len();
        if n > 0 && line[n - 1] == '\r' {
            line.pop();
        }
        let cells = split_at(&line, ',');
        rows.push(cells);
        assert(grid_of(text@).take(i + 1) == grid_of(text@).take(i as int).push(
            grid_of(text@)[i as int],
        ));
        i += 1;
    }
    rows
}

/// The index of the last cell of the row that holds `name`.
fn find_cell(cells: &Vec<Vec<char>>, name: &Vec<char>) -> (found: Option<usize>)
    ensures
        match last_cell(cells_view(cells@), name@, cells.len() as int) {
            Some(c) => found == Some(c as usize) && 0 <= c < cells.len(),
            None => found is None,
        },
{
    let mut n: usize = cells.len();
    while n > 0
        invariant
            n <= cells.len(),
            last_cell(cells_view(cells@), name@, cells.len() as int) == last_cell(
                cells_view(cells@),
                name@,
                n as int,
            ),
        decreases n,
    {
        if same_chars(&cells[n - 1], name) {
            return Some(n - 1);
        }
        n -= 1;
    }
    None
}

/// The index of the last row behind the first whose first cell holds `name`.
fn find_row(rows: &Vec<Vec<Vec<char>>>, name: &Vec<char>) -> (found: Option<usize>)
    ensures
        match last_row(rows_view(rows@), name@, rows.len() as int) {
            Some(r) => found == Some(r as usize) && 1 <= r < rows.len(),
            None => found is None,
        },
{
    let mut n: usize = rows.len();
    while n > 1
        invariant
            n <= rows.len(),
            last_row(rows_view(rows@), name@, rows.len() as int) == last_row(
                rows_view(rows@),
                name@,
                n as int,
            ),
        decreases n,
    {
        let row = &rows[n - 1];
        if row.len() > 0 {
            if same_chars(&row[0], name) {
                return Some(n - 1);
            }
        }
        n -= 1;
    }
    None
}

/// The cell of the table that `place` names, or `place` itself where the
/// table has no such cell.
fn get_value(rows: &Vec<Vec<Vec<char>>>, place: ConfigError) -> (value: Result<
    String,
    ConfigError,
>)
    ensures
        match required_cell(rows_view(rows@), place) {
            Some(cell) => value matches Ok(text) && text@ == cell,
            None => value == Err::<String, ConfigError>(place),
        },
{
    if rows.len() == 0 {
        return Err(place);
    }
    let column_name = decode(place.column.as_str());
    let row_name = decode(place.row.as_str());
    match (find_cell(&rows[0], &column_name), find_row(rows, &row_name)) {
        (Some(c), Some(r)) => {
            let row = &rows[r];
            if c < row.len() {
                Ok(encode(&row[c]))
            } else {
                Err(place)
            }
        },
        _ => Err(place),
    }
}

/// A colour scheme: the colours of the page and of each category of token.
pub struct Prettifier {
    background: String,
    foreground: String,
    font: String,
    function: String,
    variable: String,
    float_constant: String,
    int_constant: String,
    operator: String,
    keyword: String,
}

impl View for Prettifier {
    type V = PrettifierView;

    closed spec fn view(&self) -> PrettifierView {
        PrettifierView {
            background: self.background@,
            foreground: self.foreground@,
            font: self.font@,
            function: self.function@,
            variable: self.variable@,
            float_constant: self.float_constant@,
            int_constant: self.int_constant@,
            operator: self.operator@,
            keyword: self.keyword@,
        }
    }
}

impl Clone for Prettifier {
    /// A scheme of the same colours.
    fn clone(&self) -> (scheme: Prettifier)
        ensures
            scheme@ == self@,
    {
        Prettifier {
            background: self.background.clone(),
            foreground: self.foreground.clone(),
            font: self.font.clone(),
            function: self.function.clone(),
            variable: self.variable.clone(),
            float_constant: self.float_constant.clone(),
            int_constant: self.int_constant.clone(),
            operator: self.operator.clone(),
            keyword: self.keyword.clone(),
        }
    }
}

impl Prettifier {
    /// The colour scheme that the text of a colour table gives, or the first
    /// required cell that the table lacks.
    pub fn new(config: &str) -> (scheme: Result<Prettifier, ConfigError>)
        ensures
            match scheme_of(config@) {
                Ok(view) => scheme matches Ok(p) && p@ == view,
                Err(missing) => scheme matches Err(e) && e == missing,
            },
    {
        let rows = read_grid(config);
        proof {
            reveal_with_fuel(first_missing, 10);
        }
        let background = get_value(
            &rows,
            ConfigError { row: ConfigRow::Default, column: ConfigColumn::Background },
        )?;
        let foreground = get_value(
            &rows,
            ConfigError { row: ConfigRow::Default, column: ConfigColumn::Foreground },
        )?;
        let font = get_value(
            &rows,
            ConfigError { row: ConfigRow::Default, column: ConfigColumn::Font },
        )?;
        let function = get_value(
            &rows,
            ConfigError { row: ConfigRow::Function, column: ConfigColumn::Foreground },
        )?;
        let variable = get_value(
            &rows,
            ConfigError { row: ConfigRow::Variable, column: ConfigColumn::Foreground },
        )?;
        let float_constant = get_value(
            &rows,
            ConfigError { row: ConfigRow::FloatConstant, column: ConfigColumn::Foreground },
        )?;
        let int_constant = get_value(
            &rows,
            ConfigError { row: ConfigRow::IntConstant, column: ConfigColumn::Foreground },
        )?;
        let operator = get_value(
            &rows,
            ConfigError { row: ConfigRow::Operator, column: ConfigColumn::Foreground },
        )?;
        let keyword = get_value(
            &rows,
            ConfigError { row: ConfigRow::Keyword, column: ConfigColumn::Foreground },
        )?;
        Ok(
            Prettifier {
                background,
                foreground,
                font,
                function,
                variable,
                float_constant,
                int_constant,
                operator,
                keyword,
            },
        )
    }

    /// The tag that opens the body of the page, with the colours of the page.
    pub fn get_body_open(&self) -> (tag: String)
        ensures
            tag@ == body_open_of(self@),
    {
        let mut body_open = String::from_str("<body bgcolor=\"");
        body_open.append(self.background.as_str());
        body_open.append("\" text=\"");
        body_open.append(self.foreground.as_str());
        body_open.append("\" link=\"");
        body_open.append(self.foreground.as_str());
        body_open.append("\" vlink=\"");
        body_open.append(self.foreground.as_str());
        body_open.append("\">");
        body_open
    }

    /// The tag that closes the body of the page.
    pub fn get_body_close(&self) -> (tag: String)
        ensures
            tag@ == "</body>"@,
    {
        String::from_str("</body>")
    }

    /// The tag that sets the font of the page.
    pub fn get_font_open(&self) -> (tag: String)
        ensures
            tag@ == font_open_of(self@),
    {
        let mut font_open = String::from_str("<font face=");
        font_open.append(self.font.as_str());
        font_open.append(">");
        font_open
    }

    /// The tag that ends the font of the page.
    pub fn get_font_close(&self) -> (tag: String)
        ensures
            tag@ == "</font>"@,
    {
        String::from_str("</font>")
    }

    /// The token as it is written out: its text in the colour of its
    /// category, in bold where the category is emphasised.
    pub fn prettify(&self, token: Token) -> (fragment: String)
        ensures
            fragment@ == prettified(self@, token@),
    {
        match token.get_type() {
            TokenType::FUNCTION => self.format(self.function.as_str(), "", token.get_text(), ""),
            TokenType::VARIABLE => self.format(self.variable.as_str(), "", token.get_text(), ""),
            TokenType::FLOATCONSTANT => self.format(
                self.float_constant.as_str(),
                "<b>",
                token.get_text(),
                "</b>",
            ),
            TokenType::INTCONSTANT => self.format(
                self.int_constant.as_str(),
                "<b>",
                token.get_text(),
                "</b>",
            ),
            TokenType::OPERATOR => self.format(
                self.operator.as_str(),
                "<b>",
                token.get_text(),
                "</b>",
            ),
            TokenType::KEYWORD => self.format(
                self.keyword.as_str(),
                "<b>",
                token.get_text(),
                "</b>",
            ),
            _ => self.format(self.foreground.as_str(), "", token.get_text(), ""),
        }
    }

    /// `text` between the tags that colour it, and inside `style_open` and
    /// `style_close`.
    fn format(&self, color: &str, style_open: &str, text: &str, style_close: &str) -> (res: String)
        ensures
            res@ == formatted(color@, style_open@, text@, style_close@),
    {
        let mut res = String::from_str("<font color=\"");
        res.append(color);
        res.append("\">");
        res.append(style_open);
        res.append(text);
        res.append(style_close);
        res.append("</font>");
        res
    }
}

} // verus!
