use vstd::prelude::*;

verus! {

/// Dark mode from `defaults read -g AppleInterfaceStyle` (`None` when the
/// command could not be run): dark when it succeeds and prints "Dark"; in
/// light mode the key is absent and the command fails.
pub fn detect_from_defaults(output: Option<(bool, &[u8])>) -> (r: Option<bool>)
    ensures
        r == (match output {
            Some((success, stdout)) => Some(success && stdout@.len() >= 4 && stdout@.take(4) == seq![68u8, 97u8, 114u8, 107u8]),
            None => None::<bool>,
        }),
{
    match output {
        Some((success, stdout)) => {
            let dark = stdout.len() >= 4 && stdout[0] == 68u8 && stdout[1] == 97u8 && stdout[2] == 114u8
                && stdout[3] == 107u8;
            proof {
                if stdout@.len() >= 4 {
                    if stdout@.take(4) == seq![68u8, 97u8, 114u8, 107u8] {
                        assert(stdout@[0] == stdout@.take(4)[0]);
                        assert(stdout@[1] == stdout@.take(4)[1]);
                        assert(stdout@[2] == stdout@.take(4)[2]);
                        assert(stdout@[3] == stdout@.take(4)[3]);
                    }
                    if dark {
                        assert(stdout@.take(4) =~= seq![68u8, 97u8, 114u8, 107u8]);
                    }
                }
            }
            Some(success && dark)
        },
        None => None,
    }
}

} // verus!
