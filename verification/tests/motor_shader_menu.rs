use grid_spaces::menu::{
    back_button_position, back_button_system, click_play_button, handle_back_button,
    BackButtonColors, ButtonColors, GameState, Interaction, MenuAction, SpaceConfig, SpaceSettings,
};
use grid_spaces::motor::{
    click_on_motor, motor_button_configs, motor_button_position, motor_color, motor_hue,
    motor_phase_at, CellMotor, Motor, MotorButton, TWO_PI_MICRO,
};
use grid_spaces::shader::{
    add_circle, drawing_uniforms, metaballs_cursor, quad_local_cursor, should_auto_add,
    update_liquid_circles, update_shader_uniforms, LiquidCircle, UniformVec4,
};
use grid_spaces::Vec2Fx;

#[test]
fn hue_matches_the_formula_and_stays_in_the_circle() {
    assert_eq!(motor_hue(0), 0);
    assert_eq!(motor_hue(500), 180);
    assert_eq!(motor_hue(-500), 180);
    assert_eq!(motor_hue(250), 90);
    // a full-scale sine wraps around to zero
    assert_eq!(motor_hue(1000), 0);
    assert_eq!(motor_hue(-1000), 0);
    for s in -1000..=1000 {
        assert!(motor_hue(s) < 360);
    }
}

#[test]
fn motor_color_fixes_saturation_and_lightness() {
    let c = motor_color(500);
    assert_eq!(c.hue, 180);
    assert_eq!(c.saturation, 800);
    assert_eq!(c.lightness, 600);
}

#[test]
fn phase_wraps_by_whole_turns() {
    assert_eq!(motor_phase_at(1, 1), 1);
    assert_eq!(motor_phase_at(TWO_PI_MICRO, 1000), 0);
    // a frequency that divides the full turn has period two-pi over freq
    let freq: u32 = 5;
    let period = TWO_PI_MICRO / 5;
    for t in [0u64, 123_456, 9_876_543] {
        assert_eq!(motor_phase_at(t + period, freq), motor_phase_at(t, freq));
    }
}

#[test]
fn clicking_a_motor_button_toggles_motors() {
    let mut selected = vec![
        CellMotor { id: 1, motor: None },
        CellMotor { id: 2, motor: Some(Motor { freq: 50 }) },
    ];
    click_on_motor(&mut selected, MotorButton { freq: 300 });
    assert_eq!(selected[0].motor, Some(Motor { freq: 300 }));
    assert_eq!(selected[1].motor, None);
}

#[test]
fn motor_buttons_line_up_from_the_left() {
    let configs = motor_button_configs();
    assert_eq!(configs.len(), 3);
    assert_eq!(configs[0].0, MotorButton { freq: 50 });
    assert_eq!(configs[2].1.hue, 240);
    assert_eq!(motor_button_position(800_000, 0), -300_000);
    assert_eq!(motor_button_position(800_000, 2), -60_000);
}

#[test]
fn circles_auto_spawn_at_the_top_of_each_window() {
    assert!(should_auto_add(0));
    assert!(should_auto_add(15));
    assert!(!should_auto_add(16));
    assert!(!should_auto_add(1_999));
    assert!(should_auto_add(2_000));
    assert!(should_auto_add(4_015));
}

fn circle(t: u64) -> LiquidCircle {
    LiquidCircle { position_x: 300, position_y: 300, creation_time: t, max_radius: 80 }
}

#[test]
fn the_circle_list_is_capped() {
    let mut circles = Vec::new();
    add_circle(&mut circles, circle(1));
    assert_eq!(circles.len(), 1);
    add_circle(&mut circles, circle(2));
    assert_eq!(circles.len(), 1);
    assert_eq!(circles[0].creation_time, 2);
}

#[test]
fn old_circles_evaporate() {
    let mut circles = vec![circle(4_000), circle(6_000)];
    update_liquid_circles(&mut circles, 15_000);
    assert_eq!(circles.len(), 1);
    assert_eq!(circles[0].creation_time, 6_000);
}

#[test]
fn animated_uniform_carries_the_latest_circle() {
    let circles = vec![circle(1), LiquidCircle {
        position_x: 700,
        position_y: -200,
        creation_time: 9,
        max_radius: 50,
    }];
    let u = update_shader_uniforms(12_345, &circles);
    assert_eq!(u, UniformVec4 { x: 12_345, y: 700, z: -200, w: 50 });
    let empty: Vec<LiquidCircle> = Vec::new();
    let z = update_shader_uniforms(7, &empty);
    assert_eq!(z, UniformVec4 { x: 7, y: 0, z: 0, w: 0 });
}

#[test]
fn drawing_uniforms_normalize_and_flip_the_cursor() {
    let (d1, d2) = drawing_uniforms(
        5_000,
        true,
        Some((400_000, 150_000)),
        800_000,
        600_000,
    );
    assert_eq!(d1, UniformVec4 { x: 5_000, y: 1_000, z: 500, w: 750 });
    assert_eq!(d2, UniformVec4 { x: 800_000, y: 600_000, z: 0, w: 0 });
    let (n1, _) = drawing_uniforms(5_000, false, None, 800_000, 600_000);
    assert_eq!(n1.y, 0);
    assert_eq!((n1.z, n1.w), (0, 1_000));
}

#[test]
fn the_quad_local_cursor_spans_zero_to_one() {
    let center = Vec2Fx { x: 0, y: 0 };
    assert_eq!(quad_local_cursor(center, center, 800_000), (500, 500));
    let off = Vec2Fx { x: 200_000, y: -100_000 };
    assert_eq!(quad_local_cursor(off, center, 800_000), (750, 375));
    // a corner of the quad itself lands on an edge of the unit square
    let corner = Vec2Fx { x: -400_000, y: 400_000 };
    assert_eq!(quad_local_cursor(corner, center, 800_000), (0, 1_000));
}

#[test]
fn metaballs_cursor_defaults_to_the_center() {
    assert_eq!(metaballs_cursor(None, 800_000, 600_000), (500, 500));
    assert_eq!(metaballs_cursor(Some((200_000, 300_000)), 800_000, 600_000), (250, 500));
}

#[test]
fn menu_buttons_change_state_or_open_links() {
    let colors = ButtonColors::default();
    let go = click_play_button(
        Interaction::Pressed,
        Some(GameState::Flexer),
        false,
        &colors,
    );
    assert_eq!(go, MenuAction::ChangeTo(GameState::Flexer));
    let open = click_play_button(Interaction::Pressed, None, true, &colors);
    assert_eq!(open, MenuAction::OpenLink);
    let idle = click_play_button(Interaction::Idle, None, false, &colors);
    assert_eq!(idle, MenuAction::Paint(colors.normal));
    let hover = click_play_button(Interaction::Hovered, None, false, &colors);
    assert_eq!(hover, MenuAction::Paint(colors.hovered));
}

#[test]
fn back_buttons_return_to_the_startup_menu() {
    let colors = BackButtonColors::default();
    let (paint, state) = back_button_system(Interaction::Pressed, &colors);
    assert_eq!(paint, colors.pressed);
    assert_eq!(state, Some(GameState::Startup));
    let (hover_paint, no_state) = back_button_system(Interaction::Hovered, &colors);
    assert_eq!(hover_paint, colors.hovered);
    assert_eq!(no_state, None);
    assert_eq!(handle_back_button(Interaction::Pressed), Some(GameState::Startup));
    assert_eq!(handle_back_button(Interaction::Idle), None);
}

#[test]
fn back_button_sits_in_the_top_left_corner() {
    assert_eq!(back_button_position(800_000, 600_000), (-360_000, 260_000));
}

#[test]
fn space_catalogue_starts_with_three_spaces() {
    let settings = SpaceSettings::default();
    assert_eq!(settings.get_spaces().len(), 3);
    assert_eq!(settings.spaces[0].name, "Liner");
    assert_eq!(settings.spaces[0].game_state, GameState::Grid);
    assert_eq!(settings.spaces[1].name, "Motored");
    assert_eq!(settings.spaces[1].game_state, GameState::GridAndMotors);
    assert_eq!(settings.spaces[2].name, "Flexer");
    assert_eq!(settings.spaces[2].game_state, GameState::Flexer);
}

#[test]
fn spaces_can_be_added_and_removed_by_name() {
    let mut settings = SpaceSettings::default();
    let extra = SpaceConfig::new(
        String::from("Extra"),
        String::from("One more"),
        GameState::Grid,
    ).with_icon(String::from("star"));
    assert_eq!(extra.icon.as_deref(), Some("star"));
    settings.add_space(extra);
    assert_eq!(settings.get_spaces().len(), 4);
    settings.remove_space("Liner");
    assert_eq!(settings.get_spaces().len(), 3);
    assert!(settings.get_spaces().iter().all(|s| s.name != "Liner"));
    settings.remove_space("nowhere");
    assert_eq!(settings.get_spaces().len(), 3);
}

#[test]
fn default_game_state_is_loading() {
    assert_eq!(GameState::default(), GameState::Loading);
}
