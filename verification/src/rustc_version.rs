//! The nightly toolchain that stands for each minor version of the compiler.

use vstd::prelude::*;
use crate::status::RUSTC_VER_NUM;

verus! {

/// The nightly toolchain of a minor version: the versions 1 to 70 have one.
pub open spec fn nightly_of(version: u32) -> Option<Seq<char>> {
    match version {
        1 => Some("nightly-2015-05-16"@),
        2 => Some("nightly-2015-05-28"@),
        3 => Some("nightly-2015-06-26"@),
        4 => Some("nightly-2015-08-08"@),
        5 => Some("nightly-2015-09-18"@),
        6 => Some("nightly-2015-10-30"@),
        7 => Some("nightly-2015-12-10"@),
        8 => Some("nightly-2016-01-22"@),
        9 => Some("nightly-2016-03-04"@),
        10 => Some("nightly-2016-05-27"@),
        11 => Some("nightly-2016-06-16"@),
        12 => Some("nightly-2016-07-08"@),
        13 => Some("nightly-2016-08-19"@),
        14 => Some("nightly-2016-09-30"@),
        15 => Some("nightly-2016-12-02"@),
        16 => Some("nightly-2017-02-03"@),
        17 => Some("nightly-2017-03-02"@),
        18 => Some("nightly-2017-04-28"@),
        19 => Some("nightly-2017-06-09"@),
        20 => Some("nightly-2017-07-20"@),
        21 => Some("nightly-2017-09-01"@),
        22 => Some("nightly-2017-10-12"@),
        23 => Some("nightly-2017-11-23"@),
        24 => Some("nightly-2018-01-04"@),
        25 => Some("nightly-2018-02-14"@),
        26 => Some("nightly-2018-03-29"@),
        27 => Some("nightly-2018-05-11"@),
        28 => Some("nightly-2018-06-28"@),
        29 => Some("nightly-2018-08-02"@),
        30 => Some("nightly-2018-09-13"@),
        31 => Some("nightly-2018-10-22"@),
        32 => Some("nightly-2018-12-08"@),
        33 => Some("nightly-2019-01-18"@),
        34 => Some("nightly-2019-03-01"@),
        35 => Some("nightly-2019-04-12"@),
        36 => Some("nightly-2019-05-24"@),
        37 => Some("nightly-2019-07-04"@),
        38 => Some("nightly-2019-08-15"@),
        39 => Some("nightly-2019-09-20"@),
        40 => Some("nightly-2019-11-07"@),
        41 => Some("nightly-2019-12-19"@),
        42 => Some("nightly-2020-01-31"@),
        43 => Some("nightly-2020-03-12"@),
        44 => Some("nightly-2020-04-23"@),
        45 => Some("nightly-2020-06-05"@),
        46 => Some("nightly-2020-07-16"@),
        47 => Some("nightly-2020-08-27"@),
        48 => Some("nightly-2020-09-11"@),
        49 => Some("nightly-2020-10-08"@),
        50 => Some("nightly-2020-11-19"@),
        51 => Some("nightly-2020-12-31"@),
        52 => Some("nightly-2021-02-11"@),
        53 => Some("nightly-2021-03-25"@),
        54 => Some("nightly-2021-05-06"@),
        55 => Some("nightly-2021-06-17"@),
        56 => Some("nightly-2021-07-29"@),
        57 => Some("nightly-2021-09-09"@),
        58 => Some("nightly-2021-10-21"@),
        59 => Some("nightly-2021-12-02"@),
        60 => Some("nightly-2022-01-14"@),
        61 => Some("nightly-2022-02-25"@),
        62 => Some("nightly-2022-04-07"@),
        63 => Some("nightly-2022-05-19"@),
        64 => Some("nightly-2022-06-30"@),
        65 => Some("nightly-2022-08-11"@),
        66 => Some("nightly-2022-09-22"@),
        67 => Some("nightly-2022-11-03"@),
        68 => Some("nightly-2022-12-16"@),
        69 => Some("nightly-2023-01-26"@),
        70 => Some("nightly-2023-03-09"@),
        _ => None,
    }
}

/// The nightly toolchain of a minor version, if the version has one.
pub fn nightly_version(version: u32) -> (r: Option<&'static str>)
    ensures
        match r {
            Some(name) => nightly_of(version) == Some(name@),
            None => nightly_of(version) is None,
        },
{
    match version {
        1 => Some("nightly-2015-05-16"),
        2 => Some("nightly-2015-05-28"),
        3 => Some("nightly-2015-06-26"),
        4 => Some("nightly-2015-08-08"),
        5 => Some("nightly-2015-09-18"),
        6 => Some("nightly-2015-10-30"),
        7 => Some("nightly-2015-12-10"),
        8 => Some("nightly-2016-01-22"),
        9 => Some("nightly-2016-03-04"),
        10 => Some("nightly-2016-05-27"),
        11 => Some("nightly-2016-06-16"),
        12 => Some("nightly-2016-07-08"),
        13 => Some("nightly-2016-08-19"),
        14 => Some("nightly-2016-09-30"),
        15 => Some("nightly-2016-12-02"),
        16 => Some("nightly-2017-02-03"),
        17 => Some("nightly-2017-03-02"),
        18 => Some("nightly-2017-04-28"),
        19 => Some("nightly-2017-06-09"),
        20 => Some("nightly-2017-07-20"),
        21 => Some("nightly-2017-09-01"),
        22 => Some("nightly-2017-10-12"),
        23 => Some("nightly-2017-11-23"),
        24 => Some("nightly-2018-01-04"),
        25 => Some("nightly-2018-02-14"),
        26 => Some("nightly-2018-03-29"),
        27 => Some("nightly-2018-05-11"),
        28 => Some("nightly-2018-06-28"),
        29 => Some("nightly-2018-08-02"),
        30 => Some("nightly-2018-09-13"),
        31 => Some("nightly-2018-10-22"),
        32 => Some("nightly-2018-12-08"),
        33 => Some("nightly-2019-01-18"),
        34 => Some("nightly-2019-03-01"),
        35 => Some("nightly-2019-04-12"),
        36 => Some("nightly-2019-05-24"),
        37 => Some("nightly-2019-07-04"),
        38 => Some("nightly-2019-08-15"),
        39 => Some("nightly-2019-09-20"),
        40 => Some("nightly-2019-11-07"),
        41 => Some("nightly-2019-12-19"),
        42 => Some("nightly-2020-01-31"),
        43 => Some("nightly-2020-03-12"),
        44 => Some("nightly-2020-04-23"),
        45 => Some("nightly-2020-06-05"),
        46 => Some("nightly-2020-07-16"),
        47 => Some("nightly-2020-08-27"),
        48 => Some("nightly-2020-09-11"),
        49 => Some("nightly-2020-10-08"),
        50 => Some("nightly-2020-11-19"),
        51 => Some("nightly-2020-12-31"),
        52 => Some("nightly-2021-02-11"),
        53 => Some("nightly-2021-03-25"),
        54 => Some("nightly-2021-05-06"),
        55 => Some("nightly-2021-06-17"),
        56 => Some("nightly-2021-07-29"),
        57 => Some("nightly-2021-09-09"),
        58 => Some("nightly-2021-10-21"),
        59 => Some("nightly-2021-12-02"),
        60 => Some("nightly-2022-01-14"),
        61 => Some("nightly-2022-02-25"),
        62 => Some("nightly-2022-04-07"),
        63 => Some("nightly-2022-05-19"),
        64 => Some("nightly-2022-06-30"),
        65 => Some("nightly-2022-08-11"),
        66 => Some("nightly-2022-09-22"),
        67 => Some("nightly-2022-11-03"),
        68 => Some("nightly-2022-12-16"),
        69 => Some("nightly-2023-01-26"),
        70 => Some("nightly-2023-03-09"),
        _ => None,
    }
}

/// The nightly toolchain of one of the minor versions 1 to 63.
pub fn get_nightly_version(rustc_version: u32) -> (r: &'static str)
    requires
        1 <= rustc_version < RUSTC_VER_NUM,
    ensures
        nightly_of(rustc_version) == Some(r@),
{
    match nightly_version(rustc_version) {
        Some(name) => name,
        None => "",
    }
}

/// Every minor version from 1 to 70 has a nightly toolchain, and no other.
pub proof fn lemma_nightly_range(version: u32)
    ensures
        nightly_of(version) is Some <==> 1 <= version <= 70,
{
}

} // verus!
