//! Plain monetary data: currencies, cash amounts, and cash flows.
//!
//! Amounts are fixed-point integers in the currency's minor unit, and dates
//! are plain calendar triples, so that every comparison and aggregation rule
//! here is exact.

use vstd::prelude::*;

use crate::data_handler::DataError;

verus! {

/// Currency of an amount of money.
#[derive(Debug, Clone, Copy, PartialEq, Eq, Structural)]
pub enum Currency {
    AED,
    AFN,
    ALL,
    AMD,
    ANG,
    AOA,
    ARS,
    AUD,
    AWG,
    AZN,
    BAM,
    BBD,
    BDT,
    BGN,
    BHD,
    BIF,
    BMD,
    BND,
    BOB,
    BOV,
    BRL,
    BSD,
    BTN,
    BWP,
    BYR,
    BZD,
    CAD,
    CDF,
    CHE,
    CHF,
    CHW,
    CLF,
    CLP,
    CNY,
    COP,
    COU,
    CRC,
    CUC,
    CUP,
    CVE,
    CZK,
    DJF,
    DKK,
    DOP,
    DZD,
    EGP,
    ERN,
    ETB,
    EUR,
    FJD,
    FKP,
    GBP,
    GEL,
    GHS,
    GIP,
    GMD,
    GNF,
    GTQ,
    GYD,
    HKD,
    HNL,
    HRK,
    HTG,
    HUF,
    IDR,
    ILS,
    INR,
    IQD,
    IRR,
    ISK,
    JMD,
    JOD,
    JPY,
    KES,
    KGS,
    KHR,
    KMF,
    KPW,
    KRW,
    KWD,
    KYD,
    KZT,
    LAK,
    LBP,
    LKR,
    LRD,
    LSL,
    LTL,
    LVL,
    LYD,
    MAD,
    MDL,
    MGA,
    MKD,
    MMK,
    MNT,
    MOP,
    MRO,
    MUR,
    MVR,
    MWK,
    MXN,
    MXV,
    MYR,
    MZN,
    NAD,
    NGN,
    NIO,
    NOK,
    NPR,
    NZD,
    OMR,
    PAB,
    PEN,
    PGK,
    PHP,
    PKR,
    PLN,
    PYG,
    QAR,
    RON,
    RSD,
    RUB,
    RWF,
    SAR,
    SBD,
    SCR,
    SDG,
    SEK,
    SGD,
    SHP,
    SLL,
    SOS,
    SRD,
    SSP,
    STD,
    SYP,
    SZL,
    THB,
    TJS,
    TMT,
    TND,
    TOP,
    TRY,
    TTD,
    TWD,
    TZS,
    UAH,
    UGX,
    USD,
    USN,
    USS,
    UYI,
    UYU,
    UZS,
    VEF,
    VND,
    VUV,
    WST,
    XAF,
    XAG,
    XAU,
    XBA,
    XBB,
    XBC,
    XBD,
    XCD,
    XDR,
    XFU,
    XOF,
    XPD,
    XPF,
    XPT,
    XTS,
    XXX,
    YER,
    ZAR,
    ZMW,
}

/// Stable one-byte wire code of a currency, in declaration order.
pub open spec fn spec_currency_code(c: Currency) -> u8 {
    match c {
        Currency::AED => 0,
        Currency::AFN => 1,
        Currency::ALL => 2,
        Currency::AMD => 3,
        Currency::ANG => 4,
        Currency::AOA => 5,
        Currency::ARS => 6,
        Currency::AUD => 7,
        Currency::AWG => 8,
        Currency::AZN => 9,
        Currency::BAM => 10,
        Currency::BBD => 11,
        Currency::BDT => 12,
        Currency::BGN => 13,
        Currency::BHD => 14,
        Currency::BIF => 15,
        Currency::BMD => 16,
        Currency::BND => 17,
        Currency::BOB => 18,
        Currency::BOV => 19,
        Currency::BRL => 20,
        Currency::BSD => 21,
        Currency::BTN => 22,
        Currency::BWP => 23,
        Currency::BYR => 24,
        Currency::BZD => 25,
        Currency::CAD => 26,
        Currency::CDF => 27,
        Currency::CHE => 28,
        Currency::CHF => 29,
        Currency::CHW => 30,
        Currency::CLF => 31,
        Currency::CLP => 32,
        Currency::CNY => 33,
        Currency::COP => 34,
        Currency::COU => 35,
        Currency::CRC => 36,
        Currency::CUC => 37,
        Currency::CUP => 38,
        Currency::CVE => 39,
        Currency::CZK => 40,
        Currency::DJF => 41,
        Currency::DKK => 42,
        Currency::DOP => 43,
        Currency::DZD => 44,
        Currency::EGP => 45,
        Currency::ERN => 46,
        Currency::ETB => 47,
        Currency::EUR => 48,
        Currency::FJD => 49,
        Currency::FKP => 50,
        Currency::GBP => 51,
        Currency::GEL => 52,
        Currency::GHS => 53,
        Currency::GIP => 54,
        Currency::GMD => 55,
        Currency::GNF => 56,
        Currency::GTQ => 57,
        Currency::GYD => 58,
        Currency::HKD => 59,
        Currency::HNL => 60,
        Currency::HRK => 61,
        Currency::HTG => 62,
        Currency::HUF => 63,
        Currency::IDR => 64,
        Currency::ILS => 65,
        Currency::INR => 66,
        Currency::IQD => 67,
        Currency::IRR => 68,
        Currency::ISK => 69,
        Currency::JMD => 70,
        Currency::JOD => 71,
        Currency::JPY => 72,
        Currency::KES => 73,
        Currency::KGS => 74,
        Currency::KHR => 75,
        Currency::KMF => 76,
        Currency::KPW => 77,
        Currency::KRW => 78,
        Currency::KWD => 79,
        Currency::KYD => 80,
        Currency::KZT => 81,
        Currency::LAK => 82,
        Currency::LBP => 83,
        Currency::LKR => 84,
        Currency::LRD => 85,
        Currency::LSL => 86,
        Currency::LTL => 87,
        Currency::LVL => 88,
        Currency::LYD => 89,
        Currency::MAD => 90,
        Currency::MDL => 91,
        Currency::MGA => 92,
        Currency::MKD => 93,
        Currency::MMK => 94,
        Currency::MNT => 95,
        Currency::MOP => 96,
        Currency::MRO => 97,
        Currency::MUR => 98,
        Currency::MVR => 99,
        Currency::MWK => 100,
        Currency::MXN => 101,
        Currency::MXV => 102,
        Currency::MYR => 103,
        Currency::MZN => 104,
        Currency::NAD => 105,
        Currency::NGN => 106,
        Currency::NIO => 107,
        Currency::NOK => 108,
        Currency::NPR => 109,
        Currency::NZD => 110,
        Currency::OMR => 111,
        Currency::PAB => 112,
        Currency::PEN => 113,
        Currency::PGK => 114,
        Currency::PHP => 115,
        Currency::PKR => 116,
        Currency::PLN => 117,
        Currency::PYG => 118,
        Currency::QAR => 119,
        Currency::RON => 120,
        Currency::RSD => 121,
        Currency::RUB => 122,
        Currency::RWF => 123,
        Currency::SAR => 124,
        Currency::SBD => 125,
        Currency::SCR => 126,
        Currency::SDG => 127,
        Currency::SEK => 128,
        Currency::SGD => 129,
        Currency::SHP => 130,
        Currency::SLL => 131,
        Currency::SOS => 132,
        Currency::SRD => 133,
        Currency::SSP => 134,
        Currency::STD => 135,
        Currency::SYP => 136,
        Currency::SZL => 137,
        Currency::THB => 138,
        Currency::TJS => 139,
        Currency::TMT => 140,
        Currency::TND => 141,
        Currency::TOP => 142,
        Currency::TRY => 143,
        Currency::TTD => 144,
        Currency::TWD => 145,
        Currency::TZS => 146,
        Currency::UAH => 147,
        Currency::UGX => 148,
        Currency::USD => 149,
        Currency::USN => 150,
        Currency::USS => 151,
        Currency::UYI => 152,
        Currency::UYU => 153,
        Currency::UZS => 154,
        Currency::VEF => 155,
        Currency::VND => 156,
        Currency::VUV => 157,
        Currency::WST => 158,
        Currency::XAF => 159,
        Currency::XAG => 160,
        Currency::XAU => 161,
        Currency::XBA => 162,
        Currency::XBB => 163,
        Currency::XBC => 164,
        Currency::XBD => 165,
        Currency::XCD => 166,
        Currency::XDR => 167,
        Currency::XFU => 168,
        Currency::XOF => 169,
        Currency::XPD => 170,
        Currency::XPF => 171,
        Currency::XPT => 172,
        Currency::XTS => 173,
        Currency::XXX => 174,
        Currency::YER => 175,
        Currency::ZAR => 176,
        Currency::ZMW => 177,
    }
}

/// Currency of a wire code, when the code is assigned.
pub open spec fn spec_currency_from(b: u8) -> Option<Currency> {
    if b == 0 {
        Some(Currency::AED)
    } else if b == 1 {
        Some(Currency::AFN)
    } else if b == 2 {
        Some(Currency::ALL)
    } else if b == 3 {
        Some(Currency::AMD)
    } else if b == 4 {
        Some(Currency::ANG)
    } else if b == 5 {
        Some(Currency::AOA)
    } else if b == 6 {
        Some(Currency::ARS)
    } else if b == 7 {
        Some(Currency::AUD)
    } else if b == 8 {
        Some(Currency::AWG)
    } else if b == 9 {
        Some(Currency::AZN)
    } else if b == 10 {
        Some(Currency::BAM)
    } else if b == 11 {
        Some(Currency::BBD)
    } else if b == 12 {
        Some(Currency::BDT)
    } else if b == 13 {
        Some(Currency::BGN)
    } else if b == 14 {
        Some(Currency::BHD)
    } else if b == 15 {
        Some(Currency::BIF)
    } else if b == 16 {
        Some(Currency::BMD)
    } else if b == 17 {
        Some(Currency::BND)
    } else if b == 18 {
        Some(Currency::BOB)
    } else if b == 19 {
        Some(Currency::BOV)
    } else if b == 20 {
        Some(Currency::BRL)
    } else if b == 21 {
        Some(Currency::BSD)
    } else if b == 22 {
        Some(Currency::BTN)
    } else if b == 23 {
        Some(Currency::BWP)
    } else if b == 24 {
        Some(Currency::BYR)
    } else if b == 25 {
        Some(Currency::BZD)
    } else if b == 26 {
        Some(Currency::CAD)
    } else if b == 27 {
        Some(Currency::CDF)
    } else if b == 28 {
        Some(Currency::CHE)
    } else if b == 29 {
        Some(Currency::CHF)
    } else if b == 30 {
        Some(Currency::CHW)
    } else if b == 31 {
        Some(Currency::CLF)
    } else if b == 32 {
        Some(Currency::CLP)
    } else if b == 33 {
        Some(Currency::CNY)
    } else if b == 34 {
        Some(Currency::COP)
    } else if b == 35 {
        Some(Currency::COU)
    } else if b == 36 {
        Some(Currency::CRC)
    } else if b == 37 {
        Some(Currency::CUC)
    } else if b == 38 {
        Some(Currency::CUP)
    } else if b == 39 {
        Some(Currency::CVE)
    } else if b == 40 {
        Some(Currency::CZK)
    } else if b == 41 {
        Some(Currency::DJF)
    } else if b == 42 {
        Some(Currency::DKK)
    } else if b == 43 {
        Some(Currency::DOP)
    } else if b == 44 {
        Some(Currency::DZD)
    } else if b == 45 {
        Some(Currency::EGP)
    } else if b == 46 {
        Some(Currency::ERN)
    } else if b == 47 {
        Some(Currency::ETB)
    } else if b == 48 {
        Some(Currency::EUR)
    } else if b == 49 {
        Some(Currency::FJD)
    } else if b == 50 {
        Some(Currency::FKP)
    } else if b == 51 {
        Some(Currency::GBP)
    } else if b == 52 {
        Some(Currency::GEL)
    } else if b == 53 {
        Some(Currency::GHS)
    } else if b == 54 {
        Some(Currency::GIP)
    } else if b == 55 {
        Some(Currency::GMD)
    } else if b == 56 {
        Some(Currency::GNF)
    } else if b == 57 {
        Some(Currency::GTQ)
    } else if b == 58 {
        Some(Currency::GYD)
    } else if b == 59 {
        Some(Currency::HKD)
    } else if b == 60 {
        Some(Currency::HNL)
    } else if b == 61 {
        Some(Currency::HRK)
    } else if b == 62 {
        Some(Currency::HTG)
    } else if b == 63 {
        Some(Currency::HUF)
    } else if b == 64 {
        Some(Currency::IDR)
    } else if b == 65 {
        Some(Currency::ILS)
    } else if b == 66 {
        Some(Currency::INR)
    } else if b == 67 {
        Some(Currency::IQD)
    } else if b == 68 {
        Some(Currency::IRR)
    } else if b == 69 {
        Some(Currency::ISK)
    } else if b == 70 {
        Some(Currency::JMD)
    } else if b == 71 {
        Some(Currency::JOD)
    } else if b == 72 {
        Some(Currency::JPY)
    } else if b == 73 {
        Some(Currency::KES)
    } else if b == 74 {
        Some(Currency::KGS)
    } else if b == 75 {
        Some(Currency::KHR)
    } else if b == 76 {
        Some(Currency::KMF)
    } else if b == 77 {
        Some(Currency::KPW)
    } else if b == 78 {
        Some(Currency::KRW)
    } else if b == 79 {
        Some(Currency::KWD)
    } else if b == 80 {
        Some(Currency::KYD)
    } else if b == 81 {
        Some(Currency::KZT)
    } else if b == 82 {
        Some(Currency::LAK)
    } else if b == 83 {
        Some(Currency::LBP)
    } else if b == 84 {
        Some(Currency::LKR)
    } else if b == 85 {
        Some(Currency::LRD)
    } else if b == 86 {
        Some(Currency::LSL)
    } else if b == 87 {
        Some(Currency::LTL)
    } else if b == 88 {
        Some(Currency::LVL)
    } else if b == 89 {
        Some(Currency::LYD)
    } else if b == 90 {
        Some(Currency::MAD)
    } else if b == 91 {
        Some(Currency::MDL)
    } else if b == 92 {
        Some(Currency::MGA)
    } else if b == 93 {
        Some(Currency::MKD)
    } else if b == 94 {
        Some(Currency::MMK)
    } else if b == 95 {
        Some(Currency::MNT)
    } else if b == 96 {
        Some(Currency::MOP)
    } else if b == 97 {
        Some(Currency::MRO)
    } else if b == 98 {
        Some(Currency::MUR)
    } else if b == 99 {
        Some(Currency::MVR)
    } else if b == 100 {
        Some(Currency::MWK)
    } else if b == 101 {
        Some(Currency::MXN)
    } else if b == 102 {
        Some(Currency::MXV)
    } else if b == 103 {
        Some(Currency::MYR)
    } else if b == 104 {
        Some(Currency::MZN)
    } else if b == 105 {
        Some(Currency::NAD)
    } else if b == 106 {
        Some(Currency::NGN)
    } else if b == 107 {
        Some(Currency::NIO)
    } else if b == 108 {
        Some(Currency::NOK)
    } else if b == 109 {
        Some(Currency::NPR)
    } else if b == 110 {
        Some(Currency::NZD)
    } else if b == 111 {
        Some(Currency::OMR)
    } else if b == 112 {
        Some(Currency::PAB)
    } else if b == 113 {
        Some(Currency::PEN)
    } else if b == 114 {
        Some(Currency::PGK)
    } else if b == 115 {
        Some(Currency::PHP)
    } else if b == 116 {
        Some(Currency::PKR)
    } else if b == 117 {
        Some(Currency::PLN)
    } else if b == 118 {
        Some(Currency::PYG)
    } else if b == 119 {
        Some(Currency::QAR)
    } else if b == 120 {
        Some(Currency::RON)
    } else if b == 121 {
        Some(Currency::RSD)
    } else if b == 122 {
        Some(Currency::RUB)
    } else if b == 123 {
        Some(Currency::RWF)
    } else if b == 124 {
        Some(Currency::SAR)
    } else if b == 125 {
        Some(Currency::SBD)
    } else if b == 126 {
        Some(Currency::SCR)
    } else if b == 127 {
        Some(Currency::SDG)
    } else if b == 128 {
        Some(Currency::SEK)
    } else if b == 129 {
        Some(Currency::SGD)
    } else if b == 130 {
        Some(Currency::SHP)
    } else if b == 131 {
        Some(Currency::SLL)
    } else if b == 132 {
        Some(Currency::SOS)
    } else if b == 133 {
        Some(Currency::SRD)
    } else if b == 134 {
        Some(Currency::SSP)
    } else if b == 135 {
        Some(Currency::STD)
    } else if b == 136 {
        Some(Currency::SYP)
    } else if b == 137 {
        Some(Currency::SZL)
    } else if b == 138 {
        Some(Currency::THB)
    } else if b == 139 {
        Some(Currency::TJS)
    } else if b == 140 {
        Some(Currency::TMT)
    } else if b == 141 {
        Some(Currency::TND)
    } else if b == 142 {
        Some(Currency::TOP)
    } else if b == 143 {
        Some(Currency::TRY)
    } else if b == 144 {
        Some(Currency::TTD)
    } else if b == 145 {
        Some(Currency::TWD)
    } else if b == 146 {
        Some(Currency::TZS)
    } else if b == 147 {
        Some(Currency::UAH)
    } else if b == 148 {
        Some(Currency::UGX)
    } else if b == 149 {
        Some(Currency::USD)
    } else if b == 150 {
        Some(Currency::USN)
    } else if b == 151 {
        Some(Currency::USS)
    } else if b == 152 {
        Some(Currency::UYI)
    } else if b == 153 {
        Some(Currency::UYU)
    } else if b == 154 {
        Some(Currency::UZS)
    } else if b == 155 {
        Some(Currency::VEF)
    } else if b == 156 {
        Some(Currency::VND)
    } else if b == 157 {
        Some(Currency::VUV)
    } else if b == 158 {
        Some(Currency::WST)
    } else if b == 159 {
        Some(Currency::XAF)
    } else if b == 160 {
        Some(Currency::XAG)
    } else if b == 161 {
        Some(Currency::XAU)
    } else if b == 162 {
        Some(Currency::XBA)
    } else if b == 163 {
        Some(Currency::XBB)
    } else if b == 164 {
        Some(Currency::XBC)
    } else if b == 165 {
        Some(Currency::XBD)
    } else if b == 166 {
        Some(Currency::XCD)
    } else if b == 167 {
        Some(Currency::XDR)
    } else if b == 168 {
        Some(Currency::XFU)
    } else if b == 169 {
        Some(Currency::XOF)
    } else if b == 170 {
        Some(Currency::XPD)
    } else if b == 171 {
        Some(Currency::XPF)
    } else if b == 172 {
        Some(Currency::XPT)
    } else if b == 173 {
        Some(Currency::XTS)
    } else if b == 174 {
        Some(Currency::XXX)
    } else if b == 175 {
        Some(Currency::YER)
    } else if b == 176 {
        Some(Currency::ZAR)
    } else if b == 177 {
        Some(Currency::ZMW)
    } else {
        None
    }
}

/// A currency's wire code decodes back to the currency.
pub proof fn lemma_currency_roundtrip(c: Currency)
    ensures
        spec_currency_from(spec_currency_code(c)) == Some(c),
{
}

/// Renders a currency as its one-byte wire code.
pub fn currency_code(c: Currency) -> (b: u8)
    ensures
        b == spec_currency_code(c),
{
    match c {
        Currency::AED => 0,
        Currency::AFN => 1,
        Currency::ALL => 2,
        Currency::AMD => 3,
        Currency::ANG => 4,
        Currency::AOA => 5,
        Currency::ARS => 6,
        Currency::AUD => 7,
        Currency::AWG => 8,
        Currency::AZN => 9,
        Currency::BAM => 10,
        Currency::BBD => 11,
        Currency::BDT => 12,
        Currency::BGN => 13,
        Currency::BHD => 14,
        Currency::BIF => 15,
        Currency::BMD => 16,
        Currency::BND => 17,
        Currency::BOB => 18,
        Currency::BOV => 19,
        Currency::BRL => 20,
        Currency::BSD => 21,
        Currency::BTN => 22,
        Currency::BWP => 23,
        Currency::BYR => 24,
        Currency::BZD => 25,
        Currency::CAD => 26,
        Currency::CDF => 27,
        Currency::CHE => 28,
        Currency::CHF => 29,
        Currency::CHW => 30,
        Currency::CLF => 31,
        Currency::CLP => 32,
        Currency::CNY => 33,
        Currency::COP => 34,
        Currency::COU => 35,
        Currency::CRC => 36,
        Currency::CUC => 37,
        Currency::CUP => 38,
        Currency::CVE => 39,
        Currency::CZK => 40,
        Currency::DJF => 41,
        Currency::DKK => 42,
        Currency::DOP => 43,
        Currency::DZD => 44,
        Currency::EGP => 45,
        Currency::ERN => 46,
        Currency::ETB => 47,
        Currency::EUR => 48,
        Currency::FJD => 49,
        Currency::FKP => 50,
        Currency::GBP => 51,
        Currency::GEL => 52,
        Currency::GHS => 53,
        Currency::GIP => 54,
        Currency::GMD => 55,
        Currency::GNF => 56,
        Currency::GTQ => 57,
        Currency::GYD => 58,
        Currency::HKD => 59,
        Currency::HNL => 60,
        Currency::HRK => 61,
        Currency::HTG => 62,
        Currency::HUF => 63,
        Currency::IDR => 64,
        Currency::ILS => 65,
        Currency::INR => 66,
        Currency::IQD => 67,
        Currency::IRR => 68,
        Currency::ISK => 69,
        Currency::JMD => 70,
        Currency::JOD => 71,
        Currency::JPY => 72,
        Currency::KES => 73,
        Currency::KGS => 74,
        Currency::KHR => 75,
        Currency::KMF => 76,
        Currency::KPW => 77,
        Currency::KRW => 78,
        Currency::KWD => 79,
        Currency::KYD => 80,
        Currency::KZT => 81,
        Currency::LAK => 82,
        Currency::LBP => 83,
        Currency::LKR => 84,
        Currency::LRD => 85,
        Currency::LSL => 86,
        Currency::LTL => 87,
        Currency::LVL => 88,
        Currency::LYD => 89,
        Currency::MAD => 90,
        Currency::MDL => 91,
        Currency::MGA => 92,
        Currency::MKD => 93,
        Currency::MMK => 94,
        Currency::MNT => 95,
        Currency::MOP => 96,
        Currency::MRO => 97,
        Currency::MUR => 98,
        Currency::MVR => 99,
        Currency::MWK => 100,
        Currency::MXN => 101,
        Currency::MXV => 102,
        Currency::MYR => 103,
        Currency::MZN => 104,
        Currency::NAD => 105,
        Currency::NGN => 106,
        Currency::NIO => 107,
        Currency::NOK => 108,
        Currency::NPR => 109,
        Currency::NZD => 110,
        Currency::OMR => 111,
        Currency::PAB => 112,
        Currency::PEN => 113,
        Currency::PGK => 114,
        Currency::PHP => 115,
        Currency::PKR => 116,
        Currency::PLN => 117,
        Currency::PYG => 118,
        Currency::QAR => 119,
        Currency::RON => 120,
        Currency::RSD => 121,
        Currency::RUB => 122,
        Currency::RWF => 123,
        Currency::SAR => 124,
        Currency::SBD => 125,
        Currency::SCR => 126,
        Currency::SDG => 127,
        Currency::SEK => 128,
        Currency::SGD => 129,
        Currency::SHP => 130,
        Currency::SLL => 131,
        Currency::SOS => 132,
        Currency::SRD => 133,
        Currency::SSP => 134,
        Currency::STD => 135,
        Currency::SYP => 136,
        Currency::SZL => 137,
        Currency::THB => 138,
        Currency::TJS => 139,
        Currency::TMT => 140,
        Currency::TND => 141,
        Currency::TOP => 142,
        Currency::TRY => 143,
        Currency::TTD => 144,
        Currency::TWD => 145,
        Currency::TZS => 146,
        Currency::UAH => 147,
        Currency::UGX => 148,
        Currency::USD => 149,
        Currency::USN => 150,
        Currency::USS => 151,
        Currency::UYI => 152,
        Currency::UYU => 153,
        Currency::UZS => 154,
        Currency::VEF => 155,
        Currency::VND => 156,
        Currency::VUV => 157,
        Currency::WST => 158,
        Currency::XAF => 159,
        Currency::XAG => 160,
        Currency::XAU => 161,
        Currency::XBA => 162,
        Currency::XBB => 163,
        Currency::XBC => 164,
        Currency::XBD => 165,
        Currency::XCD => 166,
        Currency::XDR => 167,
        Currency::XFU => 168,
        Currency::XOF => 169,
        Currency::XPD => 170,
        Currency::XPF => 171,
        Currency::XPT => 172,
        Currency::XTS => 173,
        Currency::XXX => 174,
        Currency::YER => 175,
        Currency::ZAR => 176,
        Currency::ZMW => 177,
    }
}

/// Reads a currency back from its wire code.
pub fn currency_from_code(b: u8) -> (r: Option<Currency>)
    ensures
        r == spec_currency_from(b),
{
    let r = match b {
        0 => Some(Currency::AED),
        1 => Some(Currency::AFN),
        2 => Some(Currency::ALL),
        3 => Some(Currency::AMD),
        4 => Some(Currency::ANG),
        5 => Some(Currency::AOA),
        6 => Some(Currency::ARS),
        7 => Some(Currency::AUD),
        8 => Some(Currency::AWG),
        9 => Some(Currency::AZN),
        10 => Some(Currency::BAM),
        11 => Some(Currency::BBD),
        12 => Some(Currency::BDT),
        13 => Some(Currency::BGN),
        14 => Some(Currency::BHD),
        15 => Some(Currency::BIF),
        16 => Some(Currency::BMD),
        17 => Some(Currency::BND),
        18 => Some(Currency::BOB),
        19 => Some(Currency::BOV),
        20 => Some(Currency::BRL),
        21 => Some(Currency::BSD),
        22 => Some(Currency::BTN),
        23 => Some(Currency::BWP),
        24 => Some(Currency::BYR),
        25 => Some(Currency::BZD),
        26 => Some(Currency::CAD),
        27 => Some(Currency::CDF),
        28 => Some(Currency::CHE),
        29 => Some(Currency::CHF),
        30 => Some(Currency::CHW),
        31 => Some(Currency::CLF),
        32 => Some(Currency::CLP),
        33 => Some(Currency::CNY),
        34 => Some(Currency::COP),
        35 => Some(Currency::COU),
        36 => Some(Currency::CRC),
        37 => Some(Currency::CUC),
        38 => Some(Currency::CUP),
        39 => Some(Currency::CVE),
        40 => Some(Currency::CZK),
        41 => Some(Currency::DJF),
        42 => Some(Currency::DKK),
        43 => Some(Currency::DOP),
        44 => Some(Currency::DZD),
        45 => Some(Currency::EGP),
        46 => Some(Currency::ERN),
        47 => Some(Currency::ETB),
        48 => Some(Currency::EUR),
        49 => Some(Currency::FJD),
        50 => Some(Currency::FKP),
        51 => Some(Currency::GBP),
        52 => Some(Currency::GEL),
        53 => Some(Currency::GHS),
        54 => Some(Currency::GIP),
        55 => Some(Currency::GMD),
        56 => Some(Currency::GNF),
        57 => Some(Currency::GTQ),
        58 => Some(Currency::GYD),
        59 => Some(Currency::HKD),
        60 => Some(Currency::HNL),
        61 => Some(Currency::HRK),
        62 => Some(Currency::HTG),
        63 => Some(Currency::HUF),
        64 => Some(Currency::IDR),
        65 => Some(Currency::ILS),
        66 => Some(Currency::INR),
        67 => Some(Currency::IQD),
        68 => Some(Currency::IRR),
        69 => Some(Currency::ISK),
        70 => Some(Currency::JMD),
        71 => Some(Currency::JOD),
        72 => Some(Currency::JPY),
        73 => Some(Currency::KES),
        74 => Some(Currency::KGS),
        75 => Some(Currency::KHR),
        76 => Some(Currency::KMF),
        77 => Some(Currency::KPW),
        78 => Some(Currency::KRW),
        79 => Some(Currency::KWD),
        80 => Some(Currency::KYD),
        81 => Some(Currency::KZT),
        82 => Some(Currency::LAK),
        83 => Some(Currency::LBP),
        84 => Some(Currency::LKR),
        85 => Some(Currency::LRD),
        86 => Some(Currency::LSL),
        87 => Some(Currency::LTL),
        88 => Some(Currency::LVL),
        89 => Some(Currency::LYD),
        90 => Some(Currency::MAD),
        91 => Some(Currency::MDL),
        92 => Some(Currency::MGA),
        93 => Some(Currency::MKD),
        94 => Some(Currency::MMK),
        95 => Some(Currency::MNT),
        96 => Some(Currency::MOP),
        97 => Some(Currency::MRO),
        98 => Some(Currency::MUR),
        99 => Some(Currency::MVR),
        100 => Some(Currency::MWK),
        101 => Some(Currency::MXN),
        102 => Some(Currency::MXV),
        103 => Some(Currency::MYR),
        104 => Some(Currency::MZN),
        105 => Some(Currency::NAD),
        106 => Some(Currency::NGN),
        107 => Some(Currency::NIO),
        108 => Some(Currency::NOK),
        109 => Some(Currency::NPR),
        110 => Some(Currency::NZD),
        111 => Some(Currency::OMR),
        112 => Some(Currency::PAB),
        113 => Some(Currency::PEN),
        114 => Some(Currency::PGK),
        115 => Some(Currency::PHP),
        116 => Some(Currency::PKR),
        117 => Some(Currency::PLN),
        118 => Some(Currency::PYG),
        119 => Some(Currency::QAR),
        120 => Some(Currency::RON),
        121 => Some(Currency::RSD),
        122 => Some(Currency::RUB),
        123 => Some(Currency::RWF),
        124 => Some(Currency::SAR),
        125 => Some(Currency::SBD),
        126 => Some(Currency::SCR),
        127 => Some(Currency::SDG),
        128 => Some(Currency::SEK),
        129 => Some(Currency::SGD),
        130 => Some(Currency::SHP),
        131 => Some(Currency::SLL),
        132 => Some(Currency::SOS),
        133 => Some(Currency::SRD),
        134 => Some(Currency::SSP),
        135 => Some(Currency::STD),
        136 => Some(Currency::SYP),
        137 => Some(Currency::SZL),
        138 => Some(Currency::THB),
        139 => Some(Currency::TJS),
        140 => Some(Currency::TMT),
        141 => Some(Currency::TND),
        142 => Some(Currency::TOP),
        143 => Some(Currency::TRY),
        144 => Some(Currency::TTD),
        145 => Some(Currency::TWD),
        146 => Some(Currency::TZS),
        147 => Some(Currency::UAH),
        148 => Some(Currency::UGX),
        149 => Some(Currency::USD),
        150 => Some(Currency::USN),
        151 => Some(Currency::USS),
        152 => Some(Currency::UYI),
        153 => Some(Currency::UYU),
        154 => Some(Currency::UZS),
        155 => Some(Currency::VEF),
        156 => Some(Currency::VND),
        157 => Some(Currency::VUV),
        158 => Some(Currency::WST),
        159 => Some(Currency::XAF),
        160 => Some(Currency::XAG),
        161 => Some(Currency::XAU),
        162 => Some(Currency::XBA),
        163 => Some(Currency::XBB),
        164 => Some(Currency::XBC),
        165 => Some(Currency::XBD),
        166 => Some(Currency::XCD),
        167 => Some(Currency::XDR),
        168 => Some(Currency::XFU),
        169 => Some(Currency::XOF),
        170 => Some(Currency::XPD),
        171 => Some(Currency::XPF),
        172 => Some(Currency::XPT),
        173 => Some(Currency::XTS),
        174 => Some(Currency::XXX),
        175 => Some(Currency::YER),
        176 => Some(Currency::ZAR),
        177 => Some(Currency::ZMW),
        _ => None,
    };
    r
}

/// Container for an amount of money in some currency.  The amount is a
/// fixed-point integer in the currency's minor unit.
#[derive(Debug, Clone, Copy, PartialEq, Eq, Structural)]
pub struct CashAmount {
    pub amount: i64,
    pub currency: Currency,
}

impl CashAmount {
    /// Adds an amount of the same currency in place; amounts in different
    /// currencies cannot be combined.
    pub fn add(&mut self, cash_amount: CashAmount) -> (r: Result<(), DataError>)
        requires
            old(self).currency == cash_amount.currency ==> i64::MIN <= old(self).amount
                + cash_amount.amount <= i64::MAX,
        ensures
            old(self).currency == cash_amount.currency ==> r is Ok && *final(self) == (CashAmount {
                amount: (old(self).amount + cash_amount.amount) as i64,
                currency: old(self).currency,
            }),
            old(self).currency != cash_amount.currency ==> r == Err::<(), DataError>(
                DataError::InvalidTransaction,
            ) && *final(self) == *old(self),
    {
        if self.currency == cash_amount.currency {
            self.amount = self.amount + cash_amount.amount;
            Ok(())
        } else {
            Err(DataError::InvalidTransaction)
        }
    }

    /// The negated amount, as contracts state it.
    pub open spec fn negate_spec(&self) -> CashAmount {
        CashAmount { amount: (-self.amount) as i64, currency: self.currency }
    }

    /// The amount with its sign flipped, in the same currency.
    pub fn negate(&self) -> (r: CashAmount)
        requires
            self.amount > i64::MIN,
        ensures
            r == (CashAmount { amount: (-self.amount) as i64, currency: self.currency }),
    {
        CashAmount { amount: -self.amount, currency: self.currency }
    }

    /// Subtracts an amount of the same currency in place.
    pub fn sub(&mut self, cash_amount: CashAmount) -> (r: Result<(), DataError>)
        requires
            old(self).currency == cash_amount.currency ==> i64::MIN <= old(self).amount
                - cash_amount.amount <= i64::MAX,
        ensures
            old(self).currency == cash_amount.currency ==> r is Ok && *final(self) == (CashAmount {
                amount: (old(self).amount - cash_amount.amount) as i64,
                currency: old(self).currency,
            }),
            old(self).currency != cash_amount.currency ==> r == Err::<(), DataError>(
                DataError::InvalidTransaction,
            ) && *final(self) == *old(self),
    {
        if self.currency == cash_amount.currency {
            self.amount = self.amount - cash_amount.amount;
            Ok(())
        } else {
            Err(DataError::InvalidTransaction)
        }
    }
}

/// A plain calendar date.
#[derive(Debug, Clone, Copy, PartialEq, Eq, Structural)]
pub struct Date {
    pub year: i32,
    pub month: u8,
    pub day: u8,
}

/// Container for a single cash flow.
#[derive(Debug, Clone, Copy, PartialEq, Eq, Structural)]
pub struct CashFlow {
    pub amount: CashAmount,
    pub date: Date,
}

impl CashFlow {
    /// Construct a new cash flow.
    pub fn new(amount: i64, currency: Currency, date: Date) -> (r: CashFlow)
        ensures
            r == (CashFlow { amount: CashAmount { amount, currency }, date }),
    {
        CashFlow { amount: CashAmount { amount, currency }, date }
    }

    /// Check whether two cash flows could be aggregated: same currency and
    /// same date.
    pub fn aggregatable(&self, cf: &CashFlow) -> (r: bool)
        ensures
            r == (self.amount.currency == cf.amount.currency && self.date == cf.date),
    {
        if self.amount.currency != cf.amount.currency {
            false
        } else if self.date != cf.date {
            false
        } else {
            true
        }
    }

    /// The cash flow with its amount's sign flipped, on the same date.
    pub fn negate(&self) -> (r: CashFlow)
        requires
            self.amount.amount > i64::MIN,
        ensures
            r == (CashFlow { amount: self.amount.negate_spec(), date: self.date }),
    {
        CashFlow { amount: self.amount.negate(), date: self.date }
    }

    /// Compare two cash flows for equality within a given absolute
    /// tolerance on the amount.
    pub fn fuzzy_cash_flows_cmp_eq(&self, cf: &CashFlow, tol: i64) -> (r: bool)
        ensures
            r == (self.amount.currency == cf.amount.currency && self.date == cf.date
                && -tol <= self.amount.amount - cf.amount.amount <= tol),
    {
        if !self.aggregatable(cf) {
            false
        } else {
            let d: i128 = (self.amount.amount as i128) - (cf.amount.amount as i128);
            -(tol as i128) <= d && d <= (tol as i128)
        }
    }
}

} // verus!
