use vstd::prelude::*;

verus! {

/// The canonical palette: four role colors and sixteen named slots.
#[derive(Debug, Clone)]
pub struct Theme {
    pub background: String,
    pub foreground: String,
    pub text: String,
    pub cursor: String,
    pub black: String,
    pub red: String,
    pub green: String,
    pub yellow: String,
    pub blue: String,
    pub magenta: String,
    pub cyan: String,
    pub white: String,
    pub light_black: String,
    pub light_red: String,
    pub light_green: String,
    pub light_yellow: String,
    pub light_blue: String,
    pub light_magenta: String,
    pub light_cyan: String,
    pub light_white: String,
}

impl Theme {
    /// The twenty colors in declaration order.
    pub open spec fn colors(&self) -> Seq<Seq<char>> {
        seq![
            self.background@, self.foreground@, self.text@, self.cursor@,
            self.black@, self.red@, self.green@, self.yellow@,
            self.blue@, self.magenta@, self.cyan@, self.white@,
            self.light_black@, self.light_red@, self.light_green@, self.light_yellow@,
            self.light_blue@, self.light_magenta@, self.light_cyan@, self.light_white@,
        ]
    }

    /// Every color is present, that is non-empty.
    pub open spec fn well_formed(&self) -> bool {
        forall|i: int| 0 <= i < 20 ==> #[trigger] self.colors()[i].len() > 0
    }
}

} // verus!
