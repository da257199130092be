//! The application's own assets, laid over the widget library's icon set:
//! which paths they answer to.
use vstd::prelude::*;

use crate::text::str_eq;
use crate::update::starts_with;

verus! {

/// The logo (512 px square PNG), shown as an image.
pub const LOGO_PATH: &'static str = "logo/germal.png";

/// The soft-wrap toggle.
pub const ICON_WRAP_TEXT: &'static str = "icons/wrap-text.svg";

/// Import from cURL.
pub const ICON_FILE_INPUT: &'static str = "icons/file-input.svg";

/// The multi-row tab strip toggle.
pub const ICON_ROWS_3: &'static str = "icons/rows-3.svg";

/// Mark a variable as secret: not yet marked.
pub const ICON_LOCK_OPEN: &'static str = "icons/lock-open.svg";

/// Mark a variable as secret: marked.
pub const ICON_LOCK: &'static str = "icons/lock.svg";

/// The variables rail button.
pub const ICON_BRACES: &'static str = "icons/braces.svg";

/// The paths the application itself provides, in table order.
pub const ASSET_PATHS: [&'static str; 7] = [
    LOGO_PATH,
    ICON_WRAP_TEXT,
    ICON_FILE_INPUT,
    ICON_ROWS_3,
    ICON_LOCK_OPEN,
    ICON_LOCK,
    ICON_BRACES,
];

/// The application's asset source: its own table first, the widget
/// library's icons for everything else.
#[derive(Debug, Clone, Copy, PartialEq, Eq, Structural)]
pub struct AppAssets;

/// The own paths under `prefix`, in table order, from `start` on.
pub open spec fn paths_under(prefix: Seq<char>, start: int) -> Seq<&'static str>
    decreases 7 - start,
{
    if start >= 7 || start < 0 {
        Seq::empty()
    } else if starts_with(ASSET_PATHS[start]@, prefix) {
        seq![ASSET_PATHS[start]] + paths_under(prefix, start + 1)
    } else {
        paths_under(prefix, start + 1)
    }
}

impl AppAssets {
    /// The position in [`ASSET_PATHS`] of the first own asset at `path`;
    /// `None` sends the lookup to the widget library.
    pub fn lookup(path: &str) -> (ix: Option<usize>)
        ensures
            match ix {
                Some(i) => i < 7 && ASSET_PATHS[i as int]@ == path@ && forall|j: int|
                    0 <= j < i ==> ASSET_PATHS[j]@ != path@,
                None => forall|j: int| 0 <= j < 7 ==> ASSET_PATHS[j]@ != path@,
            },
    {
        let mut i: usize = 0;
        while i < 7
            invariant
                i <= 7,
                forall|j: int| 0 <= j < i ==> ASSET_PATHS[j]@ != path@,
            decreases 7 - i,
        {
            if str_eq(ASSET_PATHS[i], path) {
                return Some(i);
            }
            i = i + 1;
        }
        None
    }

    /// The own paths under `prefix`, added to the widget library's listing.
    pub fn listed_under(prefix: &str) -> (v: Vec<&'static str>)
        ensures
            v@ == paths_under(prefix@, 0),
    {
        let mut out: Vec<&'static str> = Vec::new();
        let mut i: usize = 0;
        while i < 7
            invariant
                i <= 7,
                out@ + paths_under(prefix@, i as int) == paths_under(prefix@, 0),
            decreases 7 - i,
        {
            let p = ASSET_PATHS[i];
            let n = prefix.unicode_len();
            let hit = n <= p.unicode_len() && str_eq(p.substring_char(0, n), prefix);
            if hit {
                out.push(p);
                assert(out@ + paths_under(prefix@, i + 1) =~= paths_under(prefix@, 0));
            }
            i = i + 1;
        }
        assert(paths_under(prefix@, 7) == Seq::<&'static str>::empty());
        assert(out@ =~= out@ + paths_under(prefix@, 7));
        out
    }
}

} // verus!
