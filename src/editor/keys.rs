//! The keys that the mode machine gives a meaning to.

use vstd::prelude::*;

verus! {

pub const ESC: char = '\u{1b}';

pub const ENTER: char = '\n';

pub const COMMA: char = ',';

pub const DIGIT_0: char = '0';

pub const DIGIT_1: char = '1';

pub const E_LOWER: char = 'e';

pub const I_LOWER: char = 'i';

pub const U_LOWER: char = 'u';

pub const U_UPPER: char = 'U';

pub const V_LOWER: char = 'v';

} // verus!
