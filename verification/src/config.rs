use vstd::prelude::*;

verus! {

/// Where a finished conversion is delivered.
#[derive(Debug, Clone, Copy, PartialEq, Eq, Structural)]
pub enum OnCopyMode {
    ReturnToClipboard,
    ReturnToChatbox,
    SendDirectly,
}

impl Default for OnCopyMode {
    fn default() -> (r: Self)
        ensures
            r == OnCopyMode::ReturnToChatbox,
    {
        OnCopyMode::ReturnToChatbox
    }
}

/// User settings.
#[derive(Debug, Clone)]
pub struct Config {
    /// Marker that a copied text must start with to be converted (unless `ignore_prefix`).
    pub prefix: String,
    /// Separator between blocks that are converted separately.
    pub split: String,
    /// Marker that introduces a converter switch.
    pub command: String,
    pub ignore_prefix: bool,
    pub on_copy_mode: OnCopyMode,
    pub skip_url: bool,
    pub use_tsf_reconvert: bool,
    pub skip_on_out_of_vrc: bool,
}

/// The default value of the `split` setting.
pub fn slash() -> (r: String)
    ensures
        r@ == seq!['/'],
{
    let r = String::from_str("/");
    proof {
        reveal_strlit("/");
    }
    r
}

/// The default value of the `prefix` and `command` settings.
pub fn semicolon() -> (r: String)
    ensures
        r@ == seq![';'],
{
    let r = String::from_str(";");
    proof {
        reveal_strlit(";");
    }
    r
}

/// The default value of the boolean settings that are on unless switched off.
pub fn bool_true() -> (r: bool)
    ensures
        r,
{
    true
}

/// The default value of the boolean settings that are off unless switched on.
pub fn bool_false() -> (r: bool)
    ensures
        !r,
{
    false
}

impl Config {
    /// The settings that a fresh installation starts with.
    pub open spec fn is_default(&self) -> bool {
        &&& self.prefix@ == seq![';']
        &&& self.split@ == seq!['/']
        &&& self.command@ == seq![';']
        &&& self.ignore_prefix
        &&& self.on_copy_mode == OnCopyMode::ReturnToChatbox
        &&& self.skip_url
        &&& !self.use_tsf_reconvert
        &&& self.skip_on_out_of_vrc
    }

    /// A copy of these settings with the same contents.
    pub fn duplicate(&self) -> (r: Config)
        ensures
            r == *self,
    {
        Config {
            prefix: self.prefix.clone(),
            split: self.split.clone(),
            command: self.command.clone(),
            ignore_prefix: self.ignore_prefix,
            on_copy_mode: self.on_copy_mode,
            skip_url: self.skip_url,
            use_tsf_reconvert: self.use_tsf_reconvert,
            skip_on_out_of_vrc: self.skip_on_out_of_vrc,
        }
    }
}

impl Default for Config {
    fn default() -> (r: Self)
        ensures
            r.is_default(),
    {
        Config {
            prefix: semicolon(),
            split: slash(),
            command: semicolon(),
            ignore_prefix: bool_true(),
            on_copy_mode: OnCopyMode::default(),
            skip_url: bool_true(),
            use_tsf_reconvert: bool_false(),
            skip_on_out_of_vrc: bool_true(),
        }
    }
}

} // verus!
