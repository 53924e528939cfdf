//! What the screen shows: the color palette and the texts of the user interface.
//!
//! The drawing itself (canvas calls, shapes at real-valued positions) belongs to the code
//! that owns the canvas; here is what it draws and where, relative to the canvas.
use vstd::prelude::*;
use vstd::string::*;
use crate::game::GameState;

verus! {

/// Colors used in the game.
pub struct Colors {
    /// Background fill
    pub background: &'static str,
    /// The player's ship
    pub player: &'static str,
    /// Enemy ships
    pub enemy: &'static str,
    /// Bullets fired by the player
    pub player_bullet: &'static str,
    /// Bullets fired by enemies
    pub enemy_bullet: &'static str,
    /// Text of the user interface
    pub ui_text: &'static str,
}

impl Colors {
    /// Creates the color palette.
    pub fn new() -> (colors: Colors)
        ensures
            colors.background@ == "#000022"@,
            colors.player@ == "#00FFFF"@,
            colors.enemy@ == "#FF3366"@,
            colors.player_bullet@ == "#88FFFF"@,
            colors.enemy_bullet@ == "#FF8888"@,
            colors.ui_text@ == "#FFFFFF"@,
    {
        Colors {
            background: "#000022",
            player: "#00FFFF",
            enemy: "#FF3366",
            player_bullet: "#88FFFF",
            enemy_bullet: "#FF8888",
            ui_text: "#FFFFFF",
        }
    }

    /// The color of a bullet, by who fired it.
    pub fn bullet_color(&self, from_player: bool) -> (color: &'static str)
        ensures
            color == (if from_player {
                self.player_bullet
            } else {
                self.enemy_bullet
            }),
    {
        if from_player {
            self.player_bullet
        } else {
            self.enemy_bullet
        }
    }
}

/// Where a text is centered horizontally.
#[derive(Clone, Copy, PartialEq, Eq, Structural, Debug)]
pub enum TextX {
    /// At this many pixels from the left edge
    Fixed(u32),
    /// At half the canvas width
    HalfWidth,
}

/// Where a text is centered vertically.
#[derive(Clone, Copy, PartialEq, Eq, Structural, Debug)]
pub enum TextY {
    /// At this many pixels from the top edge
    Fixed(u32),
    /// At a third of the canvas height
    ThirdHeight,
    /// This many pixels below half the canvas height
    HalfHeightPlus(u32),
}

/// One line of text of the user interface.
pub struct UiText {
    /// The text
    pub text: String,
    /// The canvas font it is drawn in
    pub font: &'static str,
    /// Horizontal place
    pub x: TextX,
    /// Vertical place
    pub y: TextY,
}

impl View for UiText {
    type V = (Seq<char>, Seq<char>, TextX, TextY);

    open spec fn view(&self) -> (Seq<char>, Seq<char>, TextX, TextY) {
        (self.text@, self.font@, self.x, self.y)
    }
}

/// The character of a decimal digit.
pub open spec fn digit_char(d: nat) -> char {
    (48 + d) as char
}

/// The decimal numeral of `n`, without leading zeros.
pub open spec fn decimal(n: nat) -> Seq<char>
    decreases n,
{
    if n < 10 {
        seq![digit_char(n)]
    } else {
        decimal(n / 10).push(digit_char(n % 10))
    }
}

/// The value of a decimal numeral.
pub open spec fn decimal_value(s: Seq<char>) -> nat
    decreases s.len(),
{
    if s.len() == 0 {
        0
    } else {
        10 * decimal_value(s.drop_last()) + ((s.last() as int - 48) as nat)
    }
}

/// The texts the user interface shows over the game, in the order they are drawn.
pub open spec fn ui_plan(score: u32, state: GameState) -> Seq<(Seq<char>, Seq<char>, TextX, TextY)> {
    let score_line = ("Score: "@ + decimal(score as nat), "20px Arial"@, TextX::Fixed(70), TextY::Fixed(30));
    match state {
        GameState::MainMenu => seq![
            score_line,
            ("SPACE SHOOTER"@, "36px Arial"@, TextX::HalfWidth, TextY::ThirdHeight),
            ("Press SPACE to start"@, "24px Arial"@, TextX::HalfWidth, TextY::HalfHeightPlus(0)),
        ],
        GameState::Paused => seq![
            score_line,
            ("PAUSED"@, "36px Arial"@, TextX::HalfWidth, TextY::HalfHeightPlus(0)),
            ("Press SPACE to continue"@, "24px Arial"@, TextX::HalfWidth, TextY::HalfHeightPlus(40)),
        ],
        GameState::GameOver => seq![
            score_line,
            ("GAME OVER"@, "36px Arial"@, TextX::HalfWidth, TextY::ThirdHeight),
            ("Final Score: "@ + decimal(score as nat), "36px Arial"@, TextX::HalfWidth, TextY::HalfHeightPlus(0)),
            ("Press SPACE to restart"@, "24px Arial"@, TextX::HalfWidth, TextY::HalfHeightPlus(60)),
        ],
        GameState::Playing => seq![score_line],
    }
}

/// The text of one decimal digit.
fn digit_text(d: u32) -> (text: &'static str)
    requires
        d < 10,
    ensures
        text@ == seq![digit_char(d as nat)],
{
    match d {
        0 => {
            proof {
                reveal_strlit("0");
            }
            "0"
        },
        1 => {
            proof {
                reveal_strlit("1");
            }
            "1"
        },
        2 => {
            proof {
                reveal_strlit("2");
            }
            "2"
        },
        3 => {
            proof {
                reveal_strlit("3");
            }
            "3"
        },
        4 => {
            proof {
                reveal_strlit("4");
            }
            "4"
        },
        5 => {
            proof {
                reveal_strlit("5");
            }
            "5"
        },
        6 => {
            proof {
                reveal_strlit("6");
            }
            "6"
        },
        7 => {
            proof {
                reveal_strlit("7");
            }
            "7"
        },
        8 => {
            proof {
                reveal_strlit("8");
            }
            "8"
        },
        _ => {
            proof {
                reveal_strlit("9");
            }
            "9"
        },
    }
}

/// Appends the decimal numeral of `n` to `text`.
pub fn append_decimal(text: &mut String, n: u32)
    ensures
        final(text)@ == old(text)@ + decimal(n as nat),
    decreases n,
{
    if n >= 10 {
        append_decimal(text, n / 10);
    }
    let digit = digit_text(n % 10);
    text.append(digit);
    assert(text@ =~= old(text)@ + decimal(n as nat));
}

/// `prefix` followed by the decimal numeral of `n`.
pub fn labelled_number(prefix: &str, n: u32) -> (text: String)
    ensures
        text@ == prefix@ + decimal(n as nat),
{
    let mut text = String::from_str(prefix);
    append_decimal(&mut text, n);
    text
}

/// The text showing the score.
pub fn score_text(score: u32) -> (text: String)
    ensures
        text@ == "Score: "@ + decimal(score as nat),
{
    labelled_number("Score: ", score)
}

/// One line of text of the user interface.
fn line(text: &str, font: &'static str, x: TextX, y: TextY) -> (l: UiText)
    ensures
        l@ == (text@, font@, x, y),
{
    UiText { text: String::from_str(text), font, x, y }
}

/// The texts the user interface shows over the game (score, game state), in the order
/// they are drawn.
pub fn ui_texts(score: u32, state: GameState) -> (texts: Vec<UiText>)
    ensures
        texts@.map_values(|t: UiText| t@) == ui_plan(score, state),
{
    let mut texts: Vec<UiText> = Vec::new();
    texts.push(
        UiText {
            text: score_text(score),
            font: "20px Arial",
            x: TextX::Fixed(70),
            y: TextY::Fixed(30),
        },
    );
    match state {
        GameState::MainMenu => {
            texts.push(line("SPACE SHOOTER", "36px Arial", TextX::HalfWidth, TextY::ThirdHeight));
            texts.push(
                line("Press SPACE to start", "24px Arial", TextX::HalfWidth, TextY::HalfHeightPlus(0)),
            );
        },
        GameState::Paused => {
            texts.push(line("PAUSED", "36px Arial", TextX::HalfWidth, TextY::HalfHeightPlus(0)));
            texts.push(
                line(
                    "Press SPACE to continue",
                    "24px Arial",
                    TextX::HalfWidth,
                    TextY::HalfHeightPlus(40),
                ),
            );
        },
        GameState::GameOver => {
            texts.push(line("GAME OVER", "36px Arial", TextX::HalfWidth, TextY::ThirdHeight));
            texts.push(
                UiText {
                    text: labelled_number("Final Score: ", score),
                    font: "36px Arial",
                    x: TextX::HalfWidth,
                    y: TextY::HalfHeightPlus(0),
                },
            );
            texts.push(
                line(
                    "Press SPACE to restart",
                    "24px Arial",
                    TextX::HalfWidth,
                    TextY::HalfHeightPlus(60),
                ),
            );
        },
        GameState::Playing => {},
    }
    assert(texts@.map_values(|t: UiText| t@) =~= ui_plan(score, state));
    texts
}

/// Reading a numeral back gives the number it was written from.
pub proof fn lemma_decimal_round_trip(n: nat)
    ensures
        decimal_value(decimal(n)) == n,
        decimal(n).len() >= 1,
    decreases n,
{
    let d = n % 10;
    assert(digit_char(d) as int == 48 + d);
    if n >= 10 {
        lemma_decimal_round_trip(n / 10);
        assert(decimal(n).drop_last() == decimal(n / 10));
        assert(decimal(n).last() == digit_char(d));
        assert(decimal_value(decimal(n)) == 10 * decimal_value(decimal(n / 10)) + d);
        assert(10 * (n / 10) + d == n);
    } else {
        assert(decimal(n).drop_last() =~= Seq::<char>::empty());
        assert(decimal(n).last() == digit_char(n));
        assert(decimal_value(decimal(n)) == 10 * decimal_value(Seq::<char>::empty()) + n);
    }
}

/// Different scores read differently.
pub proof fn lemma_decimal_injective(a: nat, b: nat)
    requires
        decimal(a) == decimal(b),
    ensures
        a == b,
{
    lemma_decimal_round_trip(a);
    lemma_decimal_round_trip(b);
}

} // verus!
