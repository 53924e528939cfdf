use space_shooter::game::GameState;
use space_shooter::rendering::{
    append_decimal, labelled_number, score_text, ui_texts, Colors, TextX, TextY,
};

fn plan(score: u32, state: GameState) -> Vec<(String, String, TextX, TextY)> {
    ui_texts(score, state)
        .into_iter()
        .map(|t| (t.text, t.font.to_string(), t.x, t.y))
        .collect()
}

fn entry(text: &str, font: &str, x: TextX, y: TextY) -> (String, String, TextX, TextY) {
    (text.to_string(), font.to_string(), x, y)
}

#[test]
fn score_text_is_decimal() {
    assert_eq!(score_text(0), "Score: 0");
    assert_eq!(score_text(100), "Score: 100");
    assert_eq!(score_text(1234567), "Score: 1234567");
    assert_eq!(score_text(u32::MAX), "Score: 4294967295");
    assert_eq!(labelled_number("Final Score: ", 900), "Final Score: 900");
    let mut text = String::from("x");
    append_decimal(&mut text, 90);
    assert_eq!(text, "x90");
}

#[test]
fn palette() {
    let colors = Colors::new();
    assert_eq!(colors.background, "#000022");
    assert_eq!(colors.player, "#00FFFF");
    assert_eq!(colors.enemy, "#FF3366");
    assert_eq!(colors.player_bullet, "#88FFFF");
    assert_eq!(colors.enemy_bullet, "#FF8888");
    assert_eq!(colors.ui_text, "#FFFFFF");
    assert_eq!(colors.bullet_color(true), "#88FFFF");
    assert_eq!(colors.bullet_color(false), "#FF8888");
}

#[test]
fn playing_shows_only_score() {
    assert_eq!(
        plan(300, GameState::Playing),
        vec![entry("Score: 300", "20px Arial", TextX::Fixed(70), TextY::Fixed(30))]
    );
}

#[test]
fn menu_texts() {
    assert_eq!(
        plan(0, GameState::MainMenu),
        vec![
            entry("Score: 0", "20px Arial", TextX::Fixed(70), TextY::Fixed(30)),
            entry("SPACE SHOOTER", "36px Arial", TextX::HalfWidth, TextY::ThirdHeight),
            entry(
                "Press SPACE to start",
                "24px Arial",
                TextX::HalfWidth,
                TextY::HalfHeightPlus(0)
            ),
        ]
    );
}

#[test]
fn paused_texts() {
    assert_eq!(
        plan(5, GameState::Paused),
        vec![
            entry("Score: 5", "20px Arial", TextX::Fixed(70), TextY::Fixed(30)),
            entry("PAUSED", "36px Arial", TextX::HalfWidth, TextY::HalfHeightPlus(0)),
            entry(
                "Press SPACE to continue",
                "24px Arial",
                TextX::HalfWidth,
                TextY::HalfHeightPlus(40)
            ),
        ]
    );
}

#[test]
fn game_over_texts() {
    assert_eq!(
        plan(2500, GameState::GameOver),
        vec![
            entry("Score: 2500", "20px Arial", TextX::Fixed(70), TextY::Fixed(30)),
            entry("GAME OVER", "36px Arial", TextX::HalfWidth, TextY::ThirdHeight),
            entry("Final Score: 2500", "36px Arial", TextX::HalfWidth, TextY::HalfHeightPlus(0)),
            entry(
                "Press SPACE to restart",
                "24px Arial",
                TextX::HalfWidth,
                TextY::HalfHeightPlus(60)
            ),
        ]
    );
}
