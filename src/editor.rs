use vstd::prelude::*;

verus! {

/// The editor started when neither `VISUAL` nor `EDITOR` names one.
pub open spec fn default_editor() -> Seq<char> {
    seq!['v', 'i']
}

/// Picks the editor to open the buffer with: the value of `VISUAL` when it is
/// set, else the value of `EDITOR` when it is set, else `vi`.
pub fn resolve_editor(visual: Option<String>, editor: Option<String>) -> (r: String)
    ensures
        visual is Some ==> r@ == visual->0@,
        visual is None && editor is Some ==> r@ == editor->0@,
        visual is None && editor is None ==> r@ == default_editor(),
{
    match visual {
        Some(v) => v,
        None => match editor {
            Some(e) => e,
            None => {
                let d = String::from_str("vi");
                proof {
                    reveal_strlit("vi");
                }
                d
            },
        },
    }
}

} // verus!
