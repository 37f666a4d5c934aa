//! The tunables of the editor and the colour strings it is drawn with.

use vstd::prelude::*;
use vstd::string::StringSliceAdditionalSpecFns;

verus! {

/// The editor's configuration: colours as `#RRGGBB` strings, the grid, and
/// the sizes that pointer and keyboard edits use, in canvas units.
pub struct Config {
    pub bg_color: String,
    pub point_color: String,
    pub selected_color: String,
    pub selection_box_color: String,
    pub grid_enabled: bool,
    pub grid_spacing: i32,
    pub grid_color: String,
    pub point_radius: i32,
    pub move_step: i32,
    pub move_step_large: i32,
}

/// The value of an ASCII hexadecimal digit.
pub open spec fn hex_value(b: u8) -> Option<u8> {
    if 0x30 <= b <= 0x39 {
        Some((b - 0x30) as u8)
    } else if 0x61 <= b <= 0x66 {
        Some((b - 0x61 + 10) as u8)
    } else if 0x41 <= b <= 0x46 {
        Some((b - 0x41 + 10) as u8)
    } else {
        None
    }
}

/// Two bytes read as a base-16 number (a leading `+` allowed), or zero when
/// they are not one.
pub open spec fn pair_value(a: u8, b: u8) -> u8 {
    if a == 0x2b {
        match hex_value(b) {
            Some(v) => v,
            None => 0,
        }
    } else {
        match (hex_value(a), hex_value(b)) {
            (Some(x), Some(y)) => (16 * x + y) as u8,
            _ => 0,
        }
    }
}

/// `s` without its leading `#` bytes.
pub open spec fn strip_hashes(s: Seq<u8>) -> Seq<u8>
    decreases s.len(),
{
    if s.len() > 0 && s[0] == 0x23 {
        strip_hashes(s.drop_first())
    } else {
        s
    }
}

/// Whether byte offset `i` of UTF-8 text `s` starts a character or ends the
/// text.
pub open spec fn at_boundary(s: Seq<u8>, i: int) -> bool {
    i == s.len() || !(0x80 <= s[i] < 0xc0)
}

/// The colour that the UTF-8 text `s` names: after the leading `#` marks,
/// three pairs of bytes for red, green and blue. None where the text is
/// shorter than six bytes or a pair would split a character.
pub open spec fn colour_of(s: Seq<u8>) -> Option<(u8, u8, u8)> {
    let t = strip_hashes(s);
    if t.len() >= 6 && at_boundary(t, 2) && at_boundary(t, 4) && at_boundary(t, 6) {
        Some((pair_value(t[0], t[1]), pair_value(t[2], t[3]), pair_value(t[4], t[5])))
    } else {
        None
    }
}

fn hex_digit(b: u8) -> (r: Option<u8>)
    ensures
        r == hex_value(b),
{
    if 0x30 <= b && b <= 0x39 {
        Some(b - 0x30)
    } else if 0x61 <= b && b <= 0x66 {
        Some(b - 0x61 + 10)
    } else if 0x41 <= b && b <= 0x46 {
        Some(b - 0x41 + 10)
    } else {
        None
    }
}

fn starts_char(b: &[u8], i: usize) -> (r: bool)
    requires
        i <= b@.len(),
    ensures
        r == at_boundary(b@, i as int),
{
    i == b.len() || !(0x80 <= b[i] && b[i] < 0xc0)
}

fn parse_pair(a: u8, b: u8) -> (r: u8)
    ensures
        r == pair_value(a, b),
{
    if a == 0x2b {
        match hex_digit(b) {
            Some(v) => v,
            None => 0,
        }
    } else {
        match (hex_digit(a), hex_digit(b)) {
            (Some(x), Some(y)) => 16 * x + y,
            _ => 0,
        }
    }
}

impl Config {
    /// The sizes that rounding and snapping divide by are positive.
    pub open spec fn wf(&self) -> bool {
        &&& self.grid_spacing > 0
        &&& self.move_step > 0
        &&& self.move_step_large > 0
    }

    /// Whether the sizes that rounding and snapping divide by are positive.
    pub fn is_valid(&self) -> (r: bool)
        ensures
            r == self.wf(),
    {
        self.grid_spacing > 0 && self.move_step > 0 && self.move_step_large > 0
    }

    /// The red, green and blue of a `#RRGGBB` string. A pair that is not a
    /// hexadecimal number reads as zero; text too short to hold three pairs
    /// gives `None`.
    pub fn parse_colour(hex: &str) -> (r: Option<(u8, u8, u8)>)
        ensures
            r == colour_of(hex.spec_bytes()),
    {
        let b = hex.as_bytes();
        let ghost s = b@;
        let mut start: usize = 0;
        assert(s.subrange(0, s.len() as int) =~= s);
        while start < b.len() && b[start] == 0x23
            invariant
                0 <= start <= b@.len(),
                s == b@,
                strip_hashes(s) == strip_hashes(s.subrange(start as int, s.len() as int)),
            decreases b.len() - start,
        {
            let ghost rest = s.subrange(start as int, s.len() as int);
            assert(rest.drop_first() =~= s.subrange(start + 1, s.len() as int));
            start += 1;
        }
        let ghost t = s.subrange(start as int, s.len() as int);
        assert(strip_hashes(t) == t);
        if b.len() - start < 6 {
            return None;
        }
        let ok = starts_char(b, start + 2) && starts_char(b, start + 4) && starts_char(b, start + 6);
        assert(at_boundary(t, 2) == at_boundary(s, start + 2));
        assert(at_boundary(t, 4) == at_boundary(s, start + 4));
        assert(at_boundary(t, 6) == at_boundary(s, start + 6));
        if !ok {
            return None;
        }
        Some(
            (
                parse_pair(b[start], b[start + 1]),
                parse_pair(b[start + 2], b[start + 3]),
                parse_pair(b[start + 4], b[start + 5]),
            ),
        )
    }
}

impl Default for Config {
    /// White canvas, black points, red selection, blue selection box, a
    /// visible grid every 40 units, markers of radius 20, and steps of 1 and
    /// 20 units.
    fn default() -> (r: Config)
        ensures
            r.wf(),
            r.bg_color@ == "#FFFFFF"@,
            r.point_color@ == "#000000"@,
            r.selected_color@ == "#FF0000"@,
            r.selection_box_color@ == "#0000FF"@,
            r.grid_enabled,
            r.grid_spacing == 40,
            r.grid_color@ == "#CCCCCC"@,
            r.point_radius == 20,
            r.move_step == 1,
            r.move_step_large == 20,
    {
        Config {
            bg_color: "#FFFFFF".to_owned(),
            point_color: "#000000".to_owned(),
            selected_color: "#FF0000".to_owned(),
            selection_box_color: "#0000FF".to_owned(),
            grid_enabled: true,
            grid_spacing: 40,
            grid_color: "#CCCCCC".to_owned(),
            point_radius: 20,
            move_step: 1,
            move_step_large: 20,
        }
    }
}

} // verus!
