use xhtml_highlighter::prettifier::{
    read_grid, split_at, ConfigColumn, ConfigError, ConfigRow, Prettifier,
};
use xhtml_highlighter::token::{Token, TokenType};

const TABLE: &str = "CATEGORY,BACKGROUND,FOREGROUND,FONT
DEFAULT,navy,white,Courier New
FUNCTION,navy,orange,Courier New
VARIABLE,navy,yellow,Courier New
FLOAT_CONSTANT,navy,lime,Courier New
INT_CONSTANT,navy,aqua,Courier New
OPERATOR,navy,silver,Courier New
KEYWORD,navy,fuchsia,Courier New
";

fn token(text: &str, token_type: TokenType) -> Token {
    Token::new(text.to_string(), token_type, 1, 1)
}

fn missing(row: ConfigRow, column: ConfigColumn) -> ConfigError {
    ConfigError { row, column }
}

fn without_line(table: &str, key: &str) -> String {
    table
        .lines()
        .filter(|line| !line.starts_with(key))
        .map(|line| format!("{}\n", line))
        .collect()
}

fn pieces(s: &str, sep: char) -> Vec<String> {
    let chars: Vec<char> = s.chars().collect();
    split_at(&chars, sep).iter().map(|p| p.iter().collect()).collect()
}

#[test]
fn split_cuts_at_every_separator() {
    assert_eq!(pieces("a,b,c", ','), vec!["a", "b", "c"]);
    assert_eq!(pieces("", ','), vec![""]);
    assert_eq!(pieces(",", ','), vec!["", ""]);
    assert_eq!(pieces("a,,b,", ','), vec!["a", "", "b", ""]);
    assert_eq!(pieces("no separator", ','), vec!["no separator"]);
}

#[test]
fn grid_has_a_row_for_each_line() {
    let grid = read_grid("A,B\r\nc,d,e\n\nf");
    let rows: Vec<Vec<String>> = grid
        .iter()
        .map(|row| row.iter().map(|cell| cell.iter().collect()).collect())
        .collect();
    assert_eq!(
        rows,
        vec![vec!["A", "B"], vec!["c", "d", "e"], vec![""], vec!["f"]]
    );
}

#[test]
fn table_gives_the_page_colours() {
    let scheme = Prettifier::new(TABLE).unwrap();
    assert_eq!(
        scheme.get_body_open(),
        "<body bgcolor=\"navy\" text=\"white\" link=\"white\" vlink=\"white\">"
    );
    assert_eq!(scheme.get_body_close(), "</body>");
    assert_eq!(scheme.get_font_open(), "<font face=Courier New>");
    assert_eq!(scheme.get_font_close(), "</font>");
}

#[test]
fn emphasised_categories_are_bold() {
    let scheme = Prettifier::new(TABLE).unwrap();
    assert_eq!(
        scheme.prettify(token("while", TokenType::KEYWORD)),
        "<font color=\"fuchsia\"><b>while</b></font>"
    );
    assert_eq!(
        scheme.prettify(token("<=", TokenType::OPERATOR)),
        "<font color=\"silver\"><b><=</b></font>"
    );
    assert_eq!(
        scheme.prettify(token("12", TokenType::INTCONSTANT)),
        "<font color=\"aqua\"><b>12</b></font>"
    );
    assert_eq!(
        scheme.prettify(token("12.5", TokenType::FLOATCONSTANT)),
        "<font color=\"lime\"><b>12.5</b></font>"
    );
}

#[test]
fn identifiers_are_not_bold() {
    let scheme = Prettifier::new(TABLE).unwrap();
    assert_eq!(
        scheme.prettify(token("add", TokenType::FUNCTION)),
        "<font color=\"orange\">add</font>"
    );
    assert_eq!(
        scheme.prettify(token("x", TokenType::VARIABLE)),
        "<font color=\"yellow\">x</font>"
    );
}

#[test]
fn other_categories_take_the_page_colour() {
    let scheme = Prettifier::new(TABLE).unwrap();
    assert_eq!(
        scheme.prettify(token("#", TokenType::INVALID)),
        "<font color=\"white\">#</font>"
    );
    assert_eq!(
        scheme.prettify(token("", TokenType::NONE)),
        "<font color=\"white\"></font>"
    );
}

#[test]
fn clone_holds_the_same_colours() {
    let scheme = Prettifier::new(TABLE).unwrap();
    let copy = scheme.clone();
    assert_eq!(copy.get_body_open(), scheme.get_body_open());
    assert_eq!(copy.get_font_open(), scheme.get_font_open());
    assert_eq!(
        copy.prettify(token("f", TokenType::FUNCTION)),
        "<font color=\"orange\">f</font>"
    );
}

#[test]
fn columns_are_found_by_name() {
    let table = "FONT,KEY,FOREGROUND,EXTRA,BACKGROUND
Arial,DEFAULT,black,-,white
-,FUNCTION,blue,-,-
-,VARIABLE,green,-,-
-,FLOAT_CONSTANT,red,-,-
-,INT_CONSTANT,maroon,-,-
-,OPERATOR,gray,-,-
-,KEYWORD,purple,-,-";
    assert_eq!(
        Prettifier::new(table).err(),
        Some(missing(ConfigRow::Default, ConfigColumn::Background))
    );
    let keyed = "KEY,FONT,FOREGROUND,EXTRA,BACKGROUND
DEFAULT,Arial,black,-,white
FUNCTION,-,blue,-,-
VARIABLE,-,green,-,-
FLOAT_CONSTANT,-,red,-,-
INT_CONSTANT,-,maroon,-,-
OPERATOR,-,gray,-,-
KEYWORD,-,purple,-,-";
    let scheme = Prettifier::new(keyed).unwrap();
    assert_eq!(
        scheme.get_body_open(),
        "<body bgcolor=\"white\" text=\"black\" link=\"black\" vlink=\"black\">"
    );
    assert_eq!(scheme.get_font_open(), "<font face=Arial>");
    assert_eq!(
        scheme.prettify(token("k", TokenType::KEYWORD)),
        "<font color=\"purple\"><b>k</b></font>"
    );
}

#[test]
fn later_row_of_the_same_name_counts() {
    let table = format!("{}VARIABLE,navy,green,Courier New\n", TABLE);
    let scheme = Prettifier::new(&table).unwrap();
    assert_eq!(
        scheme.prettify(token("x", TokenType::VARIABLE)),
        "<font color=\"green\">x</font>"
    );
}

#[test]
fn later_column_of_the_same_name_counts() {
    let table = "K,FOREGROUND,BACKGROUND,FONT,FOREGROUND
DEFAULT,a,b,c,d
FUNCTION,a,b,c,e
VARIABLE,a,b,c,f
FLOAT_CONSTANT,a,b,c,g
INT_CONSTANT,a,b,c,h
OPERATOR,a,b,c,i
KEYWORD,a,b,c,j";
    let scheme = Prettifier::new(table).unwrap();
    assert_eq!(
        scheme.get_body_open(),
        "<body bgcolor=\"b\" text=\"d\" link=\"d\" vlink=\"d\">"
    );
    assert_eq!(
        scheme.prettify(token("k", TokenType::KEYWORD)),
        "<font color=\"j\"><b>k</b></font>"
    );
}

#[test]
fn header_line_is_no_row() {
    let table = "DEFAULT,BACKGROUND,FOREGROUND,FONT
FUNCTION,navy,orange,Courier New
VARIABLE,navy,yellow,Courier New
FLOAT_CONSTANT,navy,lime,Courier New
INT_CONSTANT,navy,aqua,Courier New
OPERATOR,navy,silver,Courier New
KEYWORD,navy,fuchsia,Courier New
";
    assert_eq!(
        Prettifier::new(table).err(),
        Some(missing(ConfigRow::Default, ConfigColumn::Background))
    );
}

#[test]
fn carriage_returns_end_lines_too() {
    let table = TABLE.replace('\n', "\r\n");
    let scheme = Prettifier::new(&table).unwrap();
    assert_eq!(scheme.get_font_open(), "<font face=Courier New>");
    assert_eq!(
        scheme.prettify(token("k", TokenType::KEYWORD)),
        "<font color=\"fuchsia\"><b>k</b></font>"
    );
}

#[test]
fn empty_table_lacks_the_first_cell() {
    assert_eq!(
        Prettifier::new("").err(),
        Some(missing(ConfigRow::Default, ConfigColumn::Background))
    );
}

#[test]
fn missing_column_is_reported() {
    let no_background = TABLE.replace("BACKGROUND", "BACK");
    assert_eq!(
        Prettifier::new(&no_background).err(),
        Some(missing(ConfigRow::Default, ConfigColumn::Background))
    );
    let no_foreground = TABLE.replace("FOREGROUND", "FORE");
    assert_eq!(
        Prettifier::new(&no_foreground).err(),
        Some(missing(ConfigRow::Default, ConfigColumn::Foreground))
    );
    let no_font = TABLE.replace("FONT", "FACE");
    assert_eq!(
        Prettifier::new(&no_font).err(),
        Some(missing(ConfigRow::Default, ConfigColumn::Font))
    );
}

#[test]
fn missing_row_is_reported() {
    let cases = [
        ("DEFAULT", ConfigRow::Default, ConfigColumn::Background),
        ("FUNCTION", ConfigRow::Function, ConfigColumn::Foreground),
        ("VARIABLE", ConfigRow::Variable, ConfigColumn::Foreground),
        ("FLOAT_CONSTANT", ConfigRow::FloatConstant, ConfigColumn::Foreground),
        ("INT_CONSTANT", ConfigRow::IntConstant, ConfigColumn::Foreground),
        ("OPERATOR", ConfigRow::Operator, ConfigColumn::Foreground),
        ("KEYWORD", ConfigRow::Keyword, ConfigColumn::Foreground),
    ];
    for (key, row, column) in cases {
        assert_eq!(
            Prettifier::new(&without_line(TABLE, key)).err(),
            Some(missing(row, column))
        );
    }
}

#[test]
fn first_missing_cell_is_reported() {
    let table = without_line(&without_line(TABLE, "OPERATOR"), "VARIABLE");
    assert_eq!(
        Prettifier::new(&table).err(),
        Some(missing(ConfigRow::Variable, ConfigColumn::Foreground))
    );
}

#[test]
fn short_row_is_reported() {
    let table = TABLE.replace("KEYWORD,navy,fuchsia,Courier New", "KEYWORD,navy");
    assert_eq!(
        Prettifier::new(&table).err(),
        Some(missing(ConfigRow::Keyword, ConfigColumn::Foreground))
    );
    let table = TABLE.replace("DEFAULT,navy,white,Courier New", "DEFAULT,navy,white");
    assert_eq!(
        Prettifier::new(&table).err(),
        Some(missing(ConfigRow::Default, ConfigColumn::Font))
    );
}

#[test]
fn empty_cell_is_a_cell() {
    let table = TABLE.replace("VARIABLE,navy,yellow,Courier New", "VARIABLE,,,");
    let scheme = Prettifier::new(&table).unwrap();
    assert_eq!(
        scheme.prettify(token("x", TokenType::VARIABLE)),
        "<font color=\"\">x</font>"
    );
}

#[test]
fn names_of_rows_and_columns() {
    assert_eq!(ConfigRow::Default.as_str(), "DEFAULT");
    assert_eq!(ConfigRow::Function.as_str(), "FUNCTION");
    assert_eq!(ConfigRow::Variable.as_str(), "VARIABLE");
    assert_eq!(ConfigRow::FloatConstant.as_str(), "FLOAT_CONSTANT");
    assert_eq!(ConfigRow::IntConstant.as_str(), "INT_CONSTANT");
    assert_eq!(ConfigRow::Operator.as_str(), "OPERATOR");
    assert_eq!(ConfigRow::Keyword.as_str(), "KEYWORD");
    assert_eq!(ConfigColumn::Background.as_str(), "BACKGROUND");
    assert_eq!(ConfigColumn::Foreground.as_str(), "FOREGROUND");
    assert_eq!(ConfigColumn::Font.as_str(), "FONT");
}
