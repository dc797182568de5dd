//! The shell's startup configuration, consumed read-only. Loading it from
//! disk is the host program's business; the shell only reads the values.

use vstd::prelude::*;

verus! {

pub struct Config {
    /// Seed the shell's variables from the host environment.
    pub respect_vars: bool,
    /// Append the host `PATH` entries to `bin_dirs`.
    pub respect_path: bool,
    /// Directories searched for executables, in order; first match wins.
    pub bin_dirs: Vec<String>,
    /// The prompt text.
    pub prompt: String,
}

impl Config {
    /// Field-for-field copy.
    pub fn duplicate(&self) -> (res: Config)
        ensures
            res.respect_vars == self.respect_vars,
            res.respect_path == self.respect_path,
            res.bin_dirs.deep_view() == self.bin_dirs.deep_view(),
            res.prompt@ == self.prompt@,
    {
        let bin_dirs = self.bin_dirs.clone();
        proof {
            assert forall|i: int| 0 <= i < bin_dirs@.len() implies bin_dirs@[i]@
                == self.bin_dirs@[i]@ by {
                assert(cloned::<String>(self.bin_dirs[i], bin_dirs[i]));
            }
            assert(bin_dirs.deep_view() =~= self.bin_dirs.deep_view());
        }
        Config {
            respect_vars: self.respect_vars,
            respect_path: self.respect_path,
            bin_dirs,
            prompt: self.prompt.clone(),
        }
    }
}

impl Default for Config {
    /// Both host-environment switches on, the two conventional binary
    /// directories, and a two-character prompt.
    fn default() -> (res: Config)
        ensures
            res.respect_vars == true,
            res.respect_path == true,
            res.bin_dirs.deep_view() == seq!["/bin"@, "/usr/bin"@],
            res.prompt@ == "\u{bb} "@,
    {
        let mut bin_dirs: Vec<String> = Vec::new();
        bin_dirs.push(String::from_str("/bin"));
        bin_dirs.push(String::from_str("/usr/bin"));
        proof {
            assert(bin_dirs.deep_view() =~= seq!["/bin"@, "/usr/bin"@]);
        }
        Config {
            respect_vars: true,
            respect_path: true,
            bin_dirs,
            prompt: String::from_str("\u{bb} "),
        }
    }
}

} // verus!
