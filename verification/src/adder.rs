//! Decisions for editing a day's test input: which editor to open.

use vstd::prelude::*;

verus! {

/// Picks the editor for the test input. A set editor is used when it is
/// installed and refused when it is not; with none set, `vim` is used when
/// installed and `vi` otherwise.
pub fn choose_editor(editor_var: Option<String>, editor_installed: bool, vim_installed: bool) -> (r:
    Option<String>)
    ensures
        match editor_var {
            Some(editor) => (r is Some <==> editor_installed) && (editor_installed ==> r
                == Some(editor)),
            None => r matches Some(chosen) && chosen@ == (if vim_installed {
                "vim"@
            } else {
                "vi"@
            }),
        },
{
    match editor_var {
        Some(editor) => {
            if editor_installed {
                Some(editor)
            } else {
                None
            }
        },
        None => {
            if vim_installed {
                Some(String::from_str("vim"))
            } else {
                Some(String::from_str("vi"))
            }
        },
    }
}

} // verus!
