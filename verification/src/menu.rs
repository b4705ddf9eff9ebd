//! Menu navigation: the top-level application states, the catalogue of
//! selectable spaces, and the button handlers that switch between them.

use vstd::prelude::*;
use vstd::string::StringExecFns;

verus! {

/// The mutually exclusive top-level states; each activates one demo's
/// callbacks.
#[derive(Clone, Copy, PartialEq, Eq, Structural, Debug)]
pub enum GameState {
    /// Assets are being loaded.
    Loading,
    /// The line grid space.
    Grid,
    /// The tile grid with motors.
    GridAndMotors,
    /// The flexible grid space.
    Flexer,
    /// The startup menu.
    Startup,
}

impl Default for GameState {
    /// The application starts in the loading state.
    fn default() -> (r: Self)
        ensures
            r == GameState::Loading,
    {
        GameState::Loading
    }
}

/// A linear RGBA color, components in thousandths.
#[derive(Clone, Copy, PartialEq, Eq, Structural, Debug)]
pub struct LinearRgba {
    pub red: u32,
    pub green: u32,
    pub blue: u32,
    pub alpha: u32,
}

/// The resting and hovered colors of a menu button.
#[derive(Clone, Copy, PartialEq, Eq, Structural, Debug)]
pub struct ButtonColors {
    pub normal: LinearRgba,
    pub hovered: LinearRgba,
}

impl Default for ButtonColors {
    /// Dark gray at rest, slightly lighter when hovered.
    fn default() -> (r: Self)
        ensures
            r == (ButtonColors {
                normal: LinearRgba { red: 150, green: 150, blue: 150, alpha: 1000 },
                hovered: LinearRgba { red: 250, green: 250, blue: 250, alpha: 1000 },
            }),
    {
        ButtonColors {
            normal: LinearRgba { red: 150, green: 150, blue: 150, alpha: 1000 },
            hovered: LinearRgba { red: 250, green: 250, blue: 250, alpha: 1000 },
        }
    }
}

/// The resting, hovered and pressed colors of the back button.
#[derive(Clone, Copy, PartialEq, Eq, Structural, Debug)]
pub struct BackButtonColors {
    pub normal: LinearRgba,
    pub hovered: LinearRgba,
    pub pressed: LinearRgba,
}

impl Default for BackButtonColors {
    /// Dark gray at rest, lighter when hovered, green while pressed.
    fn default() -> (r: Self)
        ensures
            r == (BackButtonColors {
                normal: LinearRgba { red: 150, green: 150, blue: 150, alpha: 1000 },
                hovered: LinearRgba { red: 250, green: 250, blue: 250, alpha: 1000 },
                pressed: LinearRgba { red: 350, green: 750, blue: 350, alpha: 1000 },
            }),
    {
        BackButtonColors {
            normal: LinearRgba { red: 150, green: 150, blue: 150, alpha: 1000 },
            hovered: LinearRgba { red: 250, green: 250, blue: 250, alpha: 1000 },
            pressed: LinearRgba { red: 350, green: 750, blue: 350, alpha: 1000 },
        }
    }
}

/// The interaction state a button reports.
#[derive(Clone, Copy, PartialEq, Eq, Structural, Debug)]
pub enum Interaction {
    Pressed,
    Hovered,
    Idle,
}

/// What one frame of the menu button handler decides to do.
#[derive(Clone, Copy, PartialEq, Eq, Structural, Debug)]
pub enum MenuAction {
    /// Switch the application to this state.
    ChangeTo(GameState),
    /// Open the button's link in the browser.
    OpenLink,
    /// Repaint the button with this color.
    Paint(LinearRgba),
    /// Nothing to do.
    Nothing,
}

/// The menu button rule: a press switches to the button's target state
/// when it has one, otherwise opens its link when it has one, otherwise
/// does nothing; hovering and resting repaint the button with the
/// matching color.
pub fn click_play_button(
    interaction: Interaction,
    change_state: Option<GameState>,
    has_link: bool,
    colors: &ButtonColors,
) -> (r: MenuAction)
    ensures
        interaction == Interaction::Pressed ==> r == match change_state {
            Some(s) => MenuAction::ChangeTo(s),
            None => if has_link {
                MenuAction::OpenLink
            } else {
                MenuAction::Nothing
            },
        },
        interaction == Interaction::Hovered ==> r == MenuAction::Paint(colors.hovered),
        interaction == Interaction::Idle ==> r == MenuAction::Paint(colors.normal),
{
    match interaction {
        Interaction::Pressed => match change_state {
            Some(s) => MenuAction::ChangeTo(s),
            None => if has_link {
                MenuAction::OpenLink
            } else {
                MenuAction::Nothing
            },
        },
        Interaction::Hovered => MenuAction::Paint(colors.hovered),
        Interaction::Idle => MenuAction::Paint(colors.normal),
    }
}

/// The back button rule: a press repaints with the pressed color and
/// navigates back to the startup menu; hovering and resting only repaint.
pub fn back_button_system(interaction: Interaction, colors: &BackButtonColors) -> (r: (
    LinearRgba,
    Option<GameState>,
))
    ensures
        interaction == Interaction::Pressed ==> r == (colors.pressed, Some(GameState::Startup)),
        interaction == Interaction::Hovered ==> r.0 == colors.hovered && r.1 is None,
        interaction == Interaction::Idle ==> r.0 == colors.normal && r.1 is None,
{
    match interaction {
        Interaction::Pressed => (colors.pressed, Some(GameState::Startup)),
        Interaction::Hovered => (colors.hovered, None),
        Interaction::Idle => (colors.normal, None),
    }
}

/// The plain back button rule of the grid spaces: only a press matters,
/// and it navigates back to the startup menu.
pub fn handle_back_button(interaction: Interaction) -> (r: Option<GameState>)
    ensures
        r == if interaction == Interaction::Pressed {
            Some(GameState::Startup)
        } else {
            None::<GameState>
        },
{
    if interaction == Interaction::Pressed {
        Some(GameState::Startup)
    } else {
        None
    }
}

/// Where the square back button of a space stands: a fixed margin in from
/// the top-left window corner, in thousandths of a pixel.
pub fn back_button_position(window_w: u64, window_h: u64) -> (r: (i64, i64))
    requires
        window_w <= 4_000_000_000_000,
        window_h <= 4_000_000_000_000,
    ensures
        r.0 == -((window_w as int) / 2) + 20_000 + 20_000,
        r.1 == (window_h as int) / 2 - 20_000 - 20_000,
{
    let x = -((window_w / 2) as i64) + 20_000 + 20_000;
    let y = ((window_h / 2) as i64) - 20_000 - 20_000;
    (x, y)
}

/// Configuration of a space selectable from the startup menu.
#[derive(Debug)]
pub struct SpaceConfig {
    /// Display name for the space.
    pub name: String,
    /// Description of the space.
    pub description: String,
    /// The state to switch to when this space is selected.
    pub game_state: GameState,
    /// Optional icon identifier.
    pub icon: Option<String>,
}

impl Clone for SpaceConfig {
    fn clone(&self) -> (r: Self)
        ensures
            r == *self,
    {
        SpaceConfig {
            name: self.name.clone(),
            description: self.description.clone(),
            game_state: self.game_state,
            icon: match &self.icon {
                Some(s) => Some(s.clone()),
                None => None,
            },
        }
    }
}

impl SpaceConfig {
    /// Creates a new space configuration without an icon.
    pub fn new(name: String, description: String, game_state: GameState) -> (r: Self)
        ensures
            r.name == name,
            r.description == description,
            r.game_state == game_state,
            r.icon is None,
    {
        SpaceConfig { name, description, game_state, icon: None }
    }

    /// Attaches an icon to the configuration.
    pub fn with_icon(self, icon: String) -> (r: Self)
        ensures
            r == (SpaceConfig { icon: Some(icon), ..self }),
    {
        SpaceConfig { icon: Some(icon), ..self }
    }
}

/// The catalogue of available spaces.
pub struct SpaceSettings {
    pub spaces: Vec<SpaceConfig>,
}

impl Default for SpaceSettings {
    /// The three spaces the demo ships: the line grid, the tile grid with
    /// motors, and the flexible grid.
    fn default() -> (r: Self)
        ensures
            r.spaces@.len() == 3,
            r.spaces@[0].name@ == "Liner"@ && r.spaces@[0].game_state == GameState::Grid,
            r.spaces@[1].name@ == "Motored"@ && r.spaces@[1].game_state
                == GameState::GridAndMotors,
            r.spaces@[2].name@ == "Flexer"@ && r.spaces@[2].game_state == GameState::Flexer,
            forall|i: int| 0 <= i < 3 ==> (#[trigger] r.spaces@[i]).icon is None,
    {
        let mut spaces: Vec<SpaceConfig> = Vec::new();
        spaces.push(
            SpaceConfig::new(
                String::from_str("Liner"),
                String::from_str("Line grid"),
                GameState::Grid,
            ),
        );
        spaces.push(
            SpaceConfig::new(
                String::from_str("Motored"),
                String::from_str("Grid + Motors"),
                GameState::GridAndMotors,
            ),
        );
        spaces.push(
            SpaceConfig::new(
                String::from_str("Flexer"),
                String::from_str("Flex grid"),
                GameState::Flexer,
            ),
        );
        SpaceSettings { spaces }
    }
}

/// The predicate that keeps every space whose name differs from the one
/// being removed.
pub open spec fn name_differs(name: Seq<char>) -> spec_fn(SpaceConfig) -> bool {
    |s: SpaceConfig| s.name@ != name
}

impl SpaceSettings {
    /// All available spaces.
    pub fn get_spaces(&self) -> (r: &Vec<SpaceConfig>)
        ensures
            r == &self.spaces,
    {
        &self.spaces
    }

    /// Adds a space to the catalogue.
    pub fn add_space(&mut self, space: SpaceConfig)
        ensures
            final(self).spaces@ == old(self).spaces@.push(space),
    {
        self.spaces.push(space);
    }

    /// Removes every space carrying the given name.
    pub fn remove_space(&mut self, name: &str)
        ensures
            final(self).spaces@ == old(self).spaces@.filter(name_differs(name@)),
    {
        let key = String::from_str(name);
        let ghost orig = self.spaces@;
        let n = self.spaces.len();
        let mut out: Vec<SpaceConfig> = Vec::new();
        let mut i: usize = 0;
        proof {
            reveal(Seq::filter);
            assert(orig.take(0) =~= Seq::<SpaceConfig>::empty());
        }
        while i < n
            invariant
                n == orig.len(),
                self.spaces@ == orig,
                key@ == name@,
                i <= n,
                out@ == orig.take(i as int).filter(name_differs(name@)),
            decreases n - i,
        {
            proof {
                reveal(Seq::filter);
                let t1 = orig.take(i as int + 1);
                assert(t1.drop_last() =~= orig.take(i as int));
                assert(t1.last() == orig[i as int]);
            }
            let s = &self.spaces[i];
            if !(s.name == key) {
                let kept = s.clone();
                out.push(kept);
            }
            i += 1;
        }
        proof {
            assert(orig.take(orig.len() as int) =~= orig);
        }
        self.spaces = out;
    }
}

} // verus!
