use vstd::prelude::*;

verus! {

/// The drawing styles the tree can be shown in.
#[derive(Debug, Clone, Copy, PartialEq, Eq, Structural)]
pub enum ThemeType {
    Ascii,
    Unicode,
    Rounded,
    Nerd,
}

impl ThemeType {
    /// The style that follows this one in the cycle.
    pub open spec fn spec_next(self) -> ThemeType {
        match self {
            ThemeType::Ascii => ThemeType::Unicode,
            ThemeType::Unicode => ThemeType::Rounded,
            ThemeType::Rounded => ThemeType::Nerd,
            ThemeType::Nerd => ThemeType::Ascii,
        }
    }

    pub fn next(&self) -> (r: ThemeType)
        ensures
            r == self.spec_next(),
    {
        match self {
            ThemeType::Ascii => ThemeType::Unicode,
            ThemeType::Unicode => ThemeType::Rounded,
            ThemeType::Rounded => ThemeType::Nerd,
            ThemeType::Nerd => ThemeType::Ascii,
        }
    }
}

impl Default for ThemeType {
    fn default() -> (r: ThemeType)
        ensures
            r == ThemeType::Ascii,
    {
        ThemeType::Ascii
    }
}

/// Glyphs used to draw the tree and its statistics bars.
#[derive(Debug, Clone)]
pub struct Theme {
    pub tree_vertical: char,
    pub tree_branch: char,
    pub tree_end: char,
    pub tree_dash: char,
    pub icon_dir: &'static str,
    pub icon_file: &'static str,
    pub diff_bar_plus: char,
    pub diff_bar_minus: char,
    pub path_divider: &'static str,
    pub is_nerd: bool,
    pub simple_icons: bool,
}

impl Theme {
    /// Whether entries are drawn with per-name icons.
    pub open spec fn uses_name_icons(&self) -> bool {
        self.is_nerd && !self.simple_icons
    }

    pub fn new(t: ThemeType) -> (r: Theme)
        ensures
            t == ThemeType::Ascii ==> r == Theme::spec_ascii(),
            t == ThemeType::Unicode ==> r == Theme::spec_unicode(),
            t == ThemeType::Rounded ==> r == Theme::spec_rounded(),
            t == ThemeType::Nerd ==> r == Theme::spec_nerd(),
    {
        match t {
            ThemeType::Ascii => Theme::ascii(),
            ThemeType::Unicode => Theme::unicode(),
            ThemeType::Rounded => Theme::rounded(),
            ThemeType::Nerd => Theme::nerd(),
        }
    }

    /// The same theme with per-name icons switched off (`simple`) or left to
    /// the theme.
    pub fn with_simple_icons(self, simple: bool) -> (r: Theme)
        ensures
            r == (Theme { simple_icons: simple, ..self }),
    {
        let mut t = self;
        t.simple_icons = simple;
        t
    }

    pub open spec fn spec_ascii() -> Theme {
        Theme {
            tree_vertical: '|',
            tree_branch: '|',
            tree_end: '`',
            tree_dash: '-',
            icon_dir: "",
            icon_file: "",
            diff_bar_plus: '+',
            diff_bar_minus: '-',
            path_divider: "/",
            is_nerd: false,
            simple_icons: false,
        }
    }

    pub open spec fn spec_unicode() -> Theme {
        Theme {
            tree_vertical: '\u{2502}',
            tree_branch: '\u{251c}',
            tree_end: '\u{2514}',
            tree_dash: '\u{2500}',
            icon_dir: "",
            icon_file: "",
            diff_bar_plus: '\u{25fc}',
            diff_bar_minus: '\u{25fc}',
            path_divider: "\u{30fb}",
            is_nerd: false,
            simple_icons: false,
        }
    }

    pub open spec fn spec_rounded() -> Theme {
        Theme { tree_end: '\u{2570}', ..Theme::spec_unicode() }
    }

    pub open spec fn spec_nerd() -> Theme {
        Theme { icon_dir: "\u{f07b} ", icon_file: "\u{f15b} ", is_nerd: true, ..Theme::spec_unicode() }
    }

    /// Plain ASCII glyphs.
    pub fn ascii() -> (r: Theme)
        ensures
            r == Theme::spec_ascii(),
    {
        Theme {
            tree_vertical: '|',
            tree_branch: '|',
            tree_end: '`',
            tree_dash: '-',
            icon_dir: "",
            icon_file: "",
            diff_bar_plus: '+',
            diff_bar_minus: '-',
            path_divider: "/",
            is_nerd: false,
            simple_icons: false,
        }
    }

    /// Box-drawing glyphs.
    pub fn unicode() -> (r: Theme)
        ensures
            r == Theme::spec_unicode(),
    {
        Theme {
            tree_vertical: '\u{2502}',
            tree_branch: '\u{251c}',
            tree_end: '\u{2514}',
            tree_dash: '\u{2500}',
            icon_dir: "",
            icon_file: "",
            diff_bar_plus: '\u{25fc}',
            diff_bar_minus: '\u{25fc}',
            path_divider: "\u{30fb}",
            is_nerd: false,
            simple_icons: false,
        }
    }

    /// Box-drawing glyphs with a rounded last-child corner.
    pub fn rounded() -> (r: Theme)
        ensures
            r == Theme::spec_rounded(),
    {
        Theme {
            tree_vertical: '\u{2502}',
            tree_branch: '\u{251c}',
            tree_end: '\u{2570}',
            tree_dash: '\u{2500}',
            icon_dir: "",
            icon_file: "",
            diff_bar_plus: '\u{25fc}',
            diff_bar_minus: '\u{25fc}',
            path_divider: "\u{30fb}",
            is_nerd: false,
            simple_icons: false,
        }
    }

    /// Box-drawing glyphs with per-name icons.
    pub fn nerd() -> (r: Theme)
        ensures
            r == Theme::spec_nerd(),
    {
        Theme {
            tree_vertical: '\u{2502}',
            tree_branch: '\u{251c}',
            tree_end: '\u{2514}',
            tree_dash: '\u{2500}',
            icon_dir: "\u{f07b} ",
            icon_file: "\u{f15b} ",
            diff_bar_plus: '\u{25fc}',
            diff_bar_minus: '\u{25fc}',
            path_divider: "\u{30fb}",
            is_nerd: true,
            simple_icons: false,
        }
    }
}

} // verus!
