//! Why a source could not be started.
use crate::hertz::Hertz;
use crate::source::DeviceSetting;
use vstd::prelude::*;
use vstd::string::*;

verus! {

/// What is wrong with a requested configuration.
#[derive(Debug)]
pub enum ConfigFault {
    /// There is no channel to listen on.
    NoChannels,
    /// The sample rate is zero or negative.
    InvalidSampleRate(Hertz),
    /// The device refused a setting; `detail` is what the driver said of it.
    Rejected { setting: DeviceSetting, detail: String },
}

/// Why a source could not be started.
#[derive(Debug)]
pub enum SdrError {
    /// The configuration cannot be used.
    BadConfig(ConfigFault),
    /// There is no device to open.
    NotFound,
}

/// The decimal digit of a number below ten.
pub open spec fn digit(n: nat) -> char {
    ('0' as nat + n) as char
}

/// A number in decimal, without leading zeros.
pub open spec fn decimal(n: nat) -> Seq<char>
    decreases n,
{
    if n < 10 {
        seq![digit(n)]
    } else {
        decimal(n / 10).push(digit(n % 10))
    }
}

/// The text after the name of a rejected call that took one argument.
pub open spec fn call_text(name: Seq<char>, argument: Seq<char>, detail: Seq<char>) -> Seq<char> {
    name + "("@ + argument + "): "@ + detail
}

impl SdrError {
    /// The rate that the error's text names, if it names one.
    pub open spec fn named_rate(self) -> Option<Hertz> {
        match self {
            SdrError::BadConfig(ConfigFault::InvalidSampleRate(rate)) => Some(rate),
            SdrError::BadConfig(
                ConfigFault::Rejected { setting: DeviceSetting::SampleRate { rate, .. }, .. },
            ) => Some(rate),
            _ => None,
        }
    }

    /// The error's text, given the text of the rate that it names.
    pub open spec fn text(self, rate_text: Seq<char>) -> Seq<char> {
        match self {
            SdrError::NotFound =>
                "No HackRF One found. Ensure it is connected and not claimed by another process."@,
            SdrError::BadConfig(ConfigFault::NoChannels) =>
                "SourceConfig.channels_hz must not be empty"@,
            SdrError::BadConfig(ConfigFault::InvalidSampleRate(_)) =>
                "invalid sample rate "@ + rate_text + " Hz"@,
            SdrError::BadConfig(ConfigFault::Rejected { setting, detail }) => match setting {
                DeviceSetting::SampleRate { .. } =>
                    call_text("set_sample_rate"@, rate_text, detail@),
                DeviceSetting::LnaGain(gain) =>
                    call_text("set_lna_gain"@, decimal(gain as nat), detail@),
                DeviceSetting::VgaGain(gain) =>
                    call_text("set_vga_gain"@, decimal(gain as nat), detail@),
                DeviceSetting::AmpEnable(_) => "set_amp_enable: "@ + detail@,
                DeviceSetting::AntennaEnable(_) => "set_antenna_enable: "@ + detail@,
            },
        }
    }

    /// The rate that the error's text names, if it names one.
    pub fn rate(&self) -> (r: Option<Hertz>)
        ensures
            r == self.named_rate(),
    {
        match self {
            SdrError::BadConfig(ConfigFault::InvalidSampleRate(rate)) => Some(*rate),
            SdrError::BadConfig(ConfigFault::Rejected { setting, .. }) => match setting {
                DeviceSetting::SampleRate { rate, .. } => Some(*rate),
                _ => None,
            },
            _ => None,
        }
    }

    /// The error's text. `rate_text` is the text of the rate that `rate` returns;
    /// it is not looked at where there is none.
    pub fn message(&self, rate_text: &str) -> (r: String)
        ensures
            r@ == self.text(rate_text@),
    {
        match self {
            SdrError::NotFound => "No HackRF One found. Ensure it is connected and not claimed by another process.".to_owned(),
            SdrError::BadConfig(fault) => match fault {
                ConfigFault::NoChannels => "SourceConfig.channels_hz must not be empty".to_owned(),
                ConfigFault::InvalidSampleRate(_) => {
                    let mut out = "invalid sample rate ".to_owned();
                    out.append(rate_text);
                    out.append(" Hz");
                    out
                },
                ConfigFault::Rejected { setting, detail } => match setting {
                    DeviceSetting::SampleRate { .. } => {
                        call_message("set_sample_rate", rate_text, detail.as_str())
                    },
                    DeviceSetting::LnaGain(gain) => {
                        let argument = decimal_text(*gain);
                        call_message("set_lna_gain", argument.as_str(), detail.as_str())
                    },
                    DeviceSetting::VgaGain(gain) => {
                        let argument = decimal_text(*gain);
                        call_message("set_vga_gain", argument.as_str(), detail.as_str())
                    },
                    DeviceSetting::AmpEnable(_) => {
                        let mut out = "set_amp_enable: ".to_owned();
                        out.append(detail.as_str());
                        out
                    },
                    DeviceSetting::AntennaEnable(_) => {
                        let mut out = "set_antenna_enable: ".to_owned();
                        out.append(detail.as_str());
                        out
                    },
                },
            },
        }
    }
}

fn call_message(name: &str, argument: &str, detail: &str) -> (r: String)
    ensures
        r@ == call_text(name@, argument@, detail@),
{
    let mut out = name.to_owned();
    out.append("(");
    out.append(argument);
    out.append("): ");
    out.append(detail);
    out
}

fn digit_text(n: u16) -> (r: &'static str)
    requires
        n < 10,
    ensures
        r@ == seq![digit(n as nat)],
{
    proof {
        reveal_strlit("0");
        reveal_strlit("1");
        reveal_strlit("2");
        reveal_strlit("3");
        reveal_strlit("4");
        reveal_strlit("5");
        reveal_strlit("6");
        reveal_strlit("7");
        reveal_strlit("8");
        reveal_strlit("9");
    }
    if n == 0 {
        "0"
    } else if n == 1 {
        "1"
    } else if n == 2 {
        "2"
    } else if n == 3 {
        "3"
    } else if n == 4 {
        "4"
    } else if n == 5 {
        "5"
    } else if n == 6 {
        "6"
    } else if n == 7 {
        "7"
    } else if n == 8 {
        "8"
    } else {
        "9"
    }
}

fn decimal_text(n: u16) -> (r: String)
    ensures
        r@ == decimal(n as nat),
    decreases n,
{
    if n < 10 {
        digit_text(n).to_owned()
    } else {
        let mut out = decimal_text(n / 10);
        out.append(digit_text(n % 10));
        out
    }
}

/// The number that decimal digits stand for.
pub open spec fn number(digits: Seq<char>) -> int
    decreases digits.len(),
{
    if digits.len() == 0 {
        0
    } else {
        10 * number(digits.drop_last()) + (digits.last() as int - '0' as int)
    }
}

/// Decimal text is made of digits alone, stands for its number when it is read back,
/// and has no zero in front unless it is the number zero.
pub proof fn law_decimal_text_reads_back(n: nat)
    ensures
        number(decimal(n)) == n,
        forall|i: int| 0 <= i < decimal(n).len() ==> '0' <= #[trigger] decimal(n)[i] <= '9',
        decimal(n).len() > 0,
        decimal(n)[0] == '0' ==> n == 0 && decimal(n).len() == 1,
    decreases n,
{
    if n < 10 {
        assert(decimal(n) =~= seq![digit(n)]);
        assert(decimal(n).drop_last() =~= Seq::<char>::empty());
        assert(number(Seq::<char>::empty()) == 0);
    } else {
        law_decimal_text_reads_back(n / 10);
        assert(decimal(n).drop_last() =~= decimal(n / 10));
        assert(decimal(n).last() == digit(n % 10));
        assert(decimal(n)[0] == decimal(n / 10)[0]);
        assert forall|i: int| 0 <= i < decimal(n).len() implies '0' <= #[trigger] decimal(n)[i]
            <= '9' by {
            if i < decimal(n / 10).len() {
                assert(decimal(n)[i] == decimal(n / 10)[i]);
            }
        }
    }
}

/// The text of a rejected setting is the name of the driver's call, its argument in
/// brackets where it took a number, a colon, and what the driver said.
pub proof fn law_a_rejection_names_the_call(
    detail: String,
    rate_text: Seq<char>,
    rate: Hertz,
    hz: u32,
    divider: u32,
    gain: u16,
    on: bool,
    value: u8,
)
    ensures
        ({
            let text = |setting: DeviceSetting|
                SdrError::BadConfig(ConfigFault::Rejected { setting, detail }).text(rate_text);
            let named = |setting: DeviceSetting|
                SdrError::BadConfig(ConfigFault::Rejected { setting, detail }).named_rate();
            &&& text(DeviceSetting::SampleRate { rate, hz, divider }) == "set_sample_rate"@ + "("@
                + rate_text + "): "@ + detail@
            &&& text(DeviceSetting::LnaGain(gain)) == "set_lna_gain"@ + "("@ + decimal(gain as nat)
                + "): "@ + detail@
            &&& text(DeviceSetting::VgaGain(gain)) == "set_vga_gain"@ + "("@ + decimal(gain as nat)
                + "): "@ + detail@
            &&& text(DeviceSetting::AmpEnable(on)) == "set_amp_enable: "@ + detail@
            &&& text(DeviceSetting::AntennaEnable(value)) == "set_antenna_enable: "@ + detail@
            &&& named(DeviceSetting::SampleRate { rate, hz, divider }) == Some(rate)
            &&& named(DeviceSetting::LnaGain(gain)) is None
            &&& named(DeviceSetting::VgaGain(gain)) is None
            &&& named(DeviceSetting::AmpEnable(on)) is None
            &&& named(DeviceSetting::AntennaEnable(value)) is None
        }),
{
}

/// The text of a refused configuration says what is wrong with it, and that of a
/// missing device what to look for; of these only a bad rate is named.
pub proof fn law_a_refusal_says_why(rate: Hertz, rate_text: Seq<char>)
    ensures
        ({
            let bad_rate = SdrError::BadConfig(ConfigFault::InvalidSampleRate(rate));
            let no_channels = SdrError::BadConfig(ConfigFault::NoChannels);
            &&& bad_rate.text(rate_text) == "invalid sample rate "@ + rate_text + " Hz"@
            &&& bad_rate.named_rate() == Some(rate)
            &&& no_channels.text(rate_text) == "SourceConfig.channels_hz must not be empty"@
            &&& no_channels.named_rate() is None
            &&& SdrError::NotFound.text(rate_text)
                == "No HackRF One found. Ensure it is connected and not claimed by another process."@
            &&& SdrError::NotFound.named_rate() is None
        }),
{
}

} // verus!
