//! Configuration data model and its defaults.

use vstd::prelude::*;

verus! {

/// Theme settings.
#[derive(Debug)]
pub struct ThemeConfig {
    /// Theme mode: light, dark, high_contrast or system.
    pub mode: String,
    pub primary_color: String,
    pub highlight_color: String,
}

impl Default for ThemeConfig {
    fn default() -> (r: Self)
        ensures
            r.mode@ == "light"@,
            r.primary_color@ == "#333333"@,
            r.highlight_color@ == "#FF5722"@,
    {
        ThemeConfig {
            mode: String::from_str("light"),
            primary_color: String::from_str("#333333"),
            highlight_color: String::from_str("#FF5722"),
        }
    }
}

impl Clone for ThemeConfig {
    fn clone(&self) -> (r: Self)
        ensures
            r.mode@ == self.mode@,
            r.primary_color@ == self.primary_color@,
            r.highlight_color@ == self.highlight_color@,
    {
        ThemeConfig {
            mode: self.mode.clone(),
            primary_color: self.primary_color.clone(),
            highlight_color: self.highlight_color.clone(),
        }
    }
}

/// Selected preset and key style.
#[derive(Debug)]
pub struct PresetConfig {
    /// Selected keyboard layout (preset name).
    pub layout: String,
    /// Key style: square, circle, flat or glassmorphism.
    pub style: String,
}

impl Default for PresetConfig {
    fn default() -> (r: Self)
        ensures
            r.layout@ == "wasd-minimal"@,
            r.style@ == "square"@,
    {
        PresetConfig { layout: String::from_str("wasd-minimal"), style: String::from_str("square") }
    }
}

impl Clone for PresetConfig {
    fn clone(&self) -> (r: Self)
        ensures
            r.layout@ == self.layout@,
            r.style@ == self.style@,
    {
        PresetConfig { layout: self.layout.clone(), style: self.style.clone() }
    }
}

/// Overlay appearance. Both values are single-precision floats in the
/// configuration file; they are carried here as IEEE-754 bit patterns.
#[derive(Debug, Clone, Copy, PartialEq, Eq, Structural)]
pub struct UIConfig {
    /// Transparency, 0.0 to 1.0.
    pub transparency_bits: u32,
    /// Scale factor.
    pub scale_bits: u32,
}

/// Bit pattern of the single-precision value 0.9.
pub const FLOAT_0_9_BITS: u32 = 0x3F66_6666;
/// Bit pattern of the single-precision value 1.0.
pub const FLOAT_1_0_BITS: u32 = 0x3F80_0000;

impl Default for UIConfig {
    fn default() -> (r: Self)
        ensures
            r.transparency_bits == FLOAT_0_9_BITS,
            r.scale_bits == FLOAT_1_0_BITS,
    {
        UIConfig { transparency_bits: FLOAT_0_9_BITS, scale_bits: FLOAT_1_0_BITS }
    }
}

/// Network settings of the stream service.
#[derive(Debug)]
pub struct NetworkConfig {
    pub port: u16,
    pub bind_address: String,
}

impl Default for NetworkConfig {
    fn default() -> (r: Self)
        ensures
            r.port == 8080,
            r.bind_address@ == "0.0.0.0"@,
    {
        NetworkConfig { port: 8080, bind_address: String::from_str("0.0.0.0") }
    }
}

impl Clone for NetworkConfig {
    fn clone(&self) -> (r: Self)
        ensures
            r.port == self.port,
            r.bind_address@ == self.bind_address@,
    {
        NetworkConfig { port: self.port, bind_address: self.bind_address.clone() }
    }
}

/// Language settings.
#[derive(Debug)]
pub struct I18nConfig {
    /// Language: zh-CN or en-US.
    pub language: String,
}

impl Default for I18nConfig {
    fn default() -> (r: Self)
        ensures
            r.language@ == "zh-CN"@,
    {
        I18nConfig { language: String::from_str("zh-CN") }
    }
}

impl Clone for I18nConfig {
    fn clone(&self) -> (r: Self)
        ensures
            r.language@ == self.language@,
    {
        I18nConfig { language: self.language.clone() }
    }
}

/// The complete configuration.
#[derive(Debug)]
pub struct Config {
    pub theme: ThemeConfig,
    pub preset: PresetConfig,
    pub ui: UIConfig,
    pub network: NetworkConfig,
    pub i18n: I18nConfig,
}

/// Mathematical value of a [`Config`]: every text field by its characters.
pub struct ConfigView {
    pub theme_mode: Seq<char>,
    pub primary_color: Seq<char>,
    pub highlight_color: Seq<char>,
    pub layout: Seq<char>,
    pub style: Seq<char>,
    pub ui: UIConfig,
    pub port: u16,
    pub bind_address: Seq<char>,
    pub language: Seq<char>,
}

impl View for Config {
    type V = ConfigView;

    open spec fn view(&self) -> ConfigView {
        ConfigView {
            theme_mode: self.theme.mode@,
            primary_color: self.theme.primary_color@,
            highlight_color: self.theme.highlight_color@,
            layout: self.preset.layout@,
            style: self.preset.style@,
            ui: self.ui,
            port: self.network.port,
            bind_address: self.network.bind_address@,
            language: self.i18n.language@,
        }
    }
}

/// The default configuration.
pub open spec fn default_config() -> ConfigView {
    ConfigView {
        theme_mode: "light"@,
        primary_color: "#333333"@,
        highlight_color: "#FF5722"@,
        layout: "wasd-minimal"@,
        style: "square"@,
        ui: UIConfig { transparency_bits: FLOAT_0_9_BITS, scale_bits: FLOAT_1_0_BITS },
        port: 8080,
        bind_address: "0.0.0.0"@,
        language: "zh-CN"@,
    }
}

impl Default for Config {
    fn default() -> (r: Self)
        ensures
            r@ == default_config(),
    {
        Config {
            theme: ThemeConfig::default(),
            preset: PresetConfig::default(),
            ui: UIConfig::default(),
            network: NetworkConfig::default(),
            i18n: I18nConfig::default(),
        }
    }
}

impl Clone for Config {
    fn clone(&self) -> (r: Self)
        ensures
            r@ == self@,
    {
        Config {
            theme: self.theme.clone(),
            preset: self.preset.clone(),
            ui: self.ui,
            network: self.network.clone(),
            i18n: self.i18n.clone(),
        }
    }
}

} // verus!
