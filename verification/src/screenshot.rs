//! Screen capture decisions that do not touch the screen.

use vstd::prelude::*;
use vstd::string::StringExecFns;

use crate::text::{int_text, int_to_text};

verus! {

/// The geometry argument of ImageMagick's `import -crop` for a region:
/// width "x" height "+" x "+" y, each in decimal.
pub fn crop_geometry(x: i32, y: i32, width: u32, height: u32) -> (r: String)
    ensures
        r@ == int_text(width as int) + "x"@ + int_text(height as int) + "+"@ + int_text(x as int)
            + "+"@ + int_text(y as int),
{
    let mut r = int_to_text(width as i64);
    r.append("x");
    let h = int_to_text(height as i64);
    r.append(h.as_str());
    r.append("+");
    let xs = int_to_text(x as i64);
    r.append(xs.as_str());
    r.append("+");
    let ys = int_to_text(y as i64);
    r.append(ys.as_str());
    r
}

} // verus!
