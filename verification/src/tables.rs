//! The fixed tables of the code: prefixes, metric and non-metric unit atoms,
//! and the conversions that define a unit atom by a unit term.

use crate::text::str_eq;
use vstd::prelude::*;

verus! {

/// The prefixes, which scale a metric unit atom. The last four are the
/// powers of two that are mostly used with bits and bytes.
pub const PREFIXES: [&'static str; 23] = [
    "Y", "Z", "E", "P", "T", "G", "M", "k", "h", "da", "d", "c", "mu", "n", "p", "f", "a",
    "z", "y", "Ki", "Mi", "Gi", "Ti",
];

/// For each prefix its scale, as a numerator and a denominator: `k` is a
/// thousand, `c` a hundredth, `Ki` two to the tenth. The scale of `m`, a
/// thousandth, is here too, although `m` is not among the prefixes that are
/// split off a unit symbol.
pub const PREFIX_SCALES: [(&'static str, i128, i128); 24] = [
    ("Y", 1_000_000_000_000_000_000_000_000, 1),
    ("Z", 1_000_000_000_000_000_000_000, 1),
    ("E", 1_000_000_000_000_000_000, 1),
    ("P", 1_000_000_000_000_000, 1),
    ("T", 1_000_000_000_000, 1),
    ("G", 1_000_000_000, 1),
    ("M", 1_000_000, 1),
    ("k", 1_000, 1),
    ("h", 100, 1),
    ("da", 10, 1),
    ("d", 1, 10),
    ("c", 1, 100),
    ("m", 1, 1_000),
    ("mu", 1, 1_000_000),
    ("n", 1, 1_000_000_000),
    ("p", 1, 1_000_000_000_000),
    ("f", 1, 1_000_000_000_000_000),
    ("a", 1, 1_000_000_000_000_000_000),
    ("z", 1, 1_000_000_000_000_000_000_000),
    ("y", 1, 1_000_000_000_000_000_000_000_000),
    ("Ki", 1_024, 1),
    ("Mi", 1_048_576, 1),
    ("Gi", 1_073_741_824, 1),
    ("Ti", 1_099_511_627_776, 1),
];

/// The unit atoms that take a prefix.
pub const METRIC_UNIT_ATOMS: [&'static str; 96] = [
    "m", "s", "g", "rad", "K", "C", "cd", "mol", "sr", "Hz", "N", "Pa", "J", "W", "A", "V",
    "F", "Ohm", "S", "Wb", "Cel", "T", "H", "lm", "lx", "Bq", "Gy", "Sv", "l", "L", "ar",
    "t", "bar", "u", "eV", "pc", "[c]", "[h]", "[k]", "[eps_0]", "[mu_0]", "[e]", "[m_e]",
    "[m_p]", "[G]", "[g]", "[ly]", "gf", "Ky", "Gal", "dyn", "erg", "P", "Bi", "St", "Mx",
    "G", "Oe", "Gb", "sb", "Lmb", "ph", "Ci", "R", "RAD", "REM", "cal_[15]", "cal_[20]",
    "cal_m", "cal_IT", "cal_th", "cal", "tex", "m[H2O]", "m[Hg]", "eq", "osm", "g%", "kat",
    "U", "[iU]", "[IU]", "Np", "B", "B[SPL]", "B[V]", "B[mV]", "B[uV]", "B[10.nV]", "B[W]",
    "B[kW]", "st", "mho", "bit", "By", "Bd",
];

/// The unit atoms that take no prefix.
pub const NON_METRIC_UNIT_ATOMS: [&'static str; 221] = [
    "'", "\"", "10^", "[pi]", "%", "[ppth]", "[ppm]", "[ppb]", "[pptr]", "gon", "deg", "'",
    "min", "h", "d", "a_t", "a_j", "a_g", "a", "wk", "mo_s", "mo_j", "mo_g", "mo", "AU",
    "atm", "[lbf_av]", "[in_i]", "[ft_i]", "[yd_i]", "[mi_i]", "[fth_i]", "[nmi_i]",
    "[kn_i]", "[sin_i]", "[sft_i]", "[syd_i]", "[cin_i]", "[cft_i]", "[cyd_i]", "[bf_i]",
    "[cr_i]", "[mil_i]", "[cml_i]", "[hd_i]", "[ft_us]", "[yd_us]", "[in_us]", "[rd_us]",
    "[ch_us]", "[lk_us]", "[rch_us]", "[rlk_us]", "[fth_us]", "[fur_us]", "[mi_us]",
    "[acr_us]", "[srd_us]", "[smi_us]", "[sct]", "[twp]", "[mil_us]", "[in_br]", "[ft_br]",
    "[rd_br]", "[ch_br]", "[lk_br]", "[fth_br]", "[pc_br]", "[yd_br]", "[mi_br]",
    "[nmi_br]", "[kn_br]", "[acr_br]", "[gal_us]", "[bbl_us]", "[qt_us]", "[pt_us]",
    "[gil_us]", "[foz_us]", "[fdr_us]", "[min_us]", "[crd_us]", "[bu_us]", "[gal_wi]",
    "[pk_us]", "[dqt_us]", "[dpt_us]", "[tbs_us]", "[tsp_us]", "[cup_us]", "[foz_m]",
    "[cup_m]", "[tsp_m]", "[tbs_m]", "[gal_br]", "[pk_br]", "[bu_br]", "[qt_br]",
    "[pt_br]", "[gil_br]", "[foz_br]", "[fdr_br]", "[min_br]", "[gr]", "[lb_av]",
    "[oz_av]", "[dr_av]", "[scwt_av]", "[lcwt_av]", "[ston_av]", "[lton_av]", "[stone_av]",
    "[pwt_tr]", "[oz_tr]", "[lb_tr]", "[sc_ap]", "[dr_ap]", "[oz_ap]", "[lb_ap]", "[oz_m]",
    "[lne]", "[pnt]", "[pca]", "[pnt_pr]", "[pca_pr]", "[pied]", "[pouce]", "[ligne]",
    "[didot]", "[cicero]", "[degF]", "[degR]", "[degRe]", "[Cal]", "[Btu_39]", "[Btu_59]",
    "[Btu_60]", "[Btu_m]", "[Btu_IT]", "[Btu_th]", "[Btu]", "[HP]", "[den]", "[in_i'H2O]",
    "[in_i'Hg]", "[PRU]", "[wood'U]", "[diop]", "[p'diop]", "%[slope]", "[mesh_i]", "[Ch]",
    "[drp]", "[hnsf'U]", "[MET]", "[hp'_X]", "[hp'_C]", "[hp'_M]", "[hp'_Q]", "[hp_X]",
    "[hp_C]", "[hp_M]", "[hp_Q]", "[kp_X]", "[kp_C]", "[kp_M]", "[kp_Q]", "[pH]", "[S]",
    "[HPF]", "[LPF]", "[arb'U]", "[USP'U]", "[GPL'U]", "[MPL'U]", "[APL'U]", "[beth'U]",
    "[anti'Xa'U]", "[todd'U]", "[dye'U]", "[smgy'U]", "[bdsk'U]", "[ka'U]", "[knk'U]",
    "[mclg'U]", "[tb'U]", "[CCID_50]", "[TCID_50]", "[EID_50]", "[PFU]", "[FFU]", "[CFU]",
    "[IR]", "[BAU]", "[AU]", "[Amb'a'1'U]", "[PNU]", "[Lf]", "[D'ag'U]", "[FEU]", "[ELU]",
    "[EU]", "Ao", "b", "att", "[psi]", "circ", "sph", "[car_m]", "[car_Au]", "[smoot]",
    "[m/s2/Hz^(1/2)]", "bit_s", "{tot}", "{tbl}", "{rbc}", "g.m/{H.B.}", "gf.m/{H.B.}",
    "kg{wet'tis}", "mg{creat}",
];

/// The conversions: a unit atom and the unit term that defines it. A base
/// unit is defined by itself. A definition that starts with `=`, `@` or `1`
/// is not a unit term: a special function, or a plain number.
pub const CONVERSIONS: [(&'static str, &'static str); 316] = [
    ("m", "m"), ("s", "s"), ("g", "g"), ("rad", "rad"), ("K", "K"), ("C", "C"),
    ("cd", "cd"), ("[pi]", "1"), ("%", "1"), ("[ppth]", "1"), ("[ppm]", "1"),
    ("[ppb]", "1"), ("[pptr]", "1"), ("mol", "1"), ("sr", "rad2"), ("Hz", "s-1"),
    ("N", "kg.m/s2"), ("Pa", "N/m2"), ("J", "N.m"), ("W", "J/s"), ("A", "C/s"),
    ("V", "J/C"), ("F", "C/V"), ("Ohm", "V/A"), ("S", "Ohm-1"), ("Wb", "V.s"),
    ("Cel", "=cel(1 K)"), ("T", "Wb/m2"), ("H", "Wb/A"), ("lm", "cd.sr"), ("lx", "lm/m2"),
    ("Bq", "s-1"), ("Gy", "J/kg"), ("Sv", "J/kg"), ("gon", "deg"), ("deg", "[pi].rad"),
    ("'", "deg"), ("''", "'"), ("\"", "'"), ("l", "dm3"), ("L", "l"), ("ar", "m2"),
    ("min", "s"), ("h", "min"), ("d", "h"), ("a_t", "d"), ("a_j", "d"), ("a_g", "d"),
    ("a", "a_j"), ("wk", "d"), ("mo_s", "d"), ("mo_j", "a_j/12"), ("mo_g", "a_g/12"),
    ("mo", "mo_j"), ("t", "kg"), ("bar", "Pa"), ("u", "g"), ("eV", "[e].V"), ("AU", "Mm"),
    ("pc", "m"), ("[c]", "m/s"), ("[h]", "J.s"), ("[k]", "J/K"), ("[eps_0]", "F/m"),
    ("[mu_0]", "[pi].N/A2"), ("[e]", "C"), ("[m_e]", "g"), ("[m_p]", "g"),
    ("[G]", "m3.kg-1.s-2"), ("[g]", "m/s2"), ("atm", "Pa"), ("[ly]", "[c].a_j"),
    ("gf", "g.[g]"), ("[lbf_av]", "[lb_av].[g]"), ("Ky", "cm-1"), ("Gal", "cm/s2"),
    ("dyn", "g.cm/s2"), ("erg", "dyn.cm"), ("P", "dyn.s/cm2"), ("Bi", "A"),
    ("St", "cm2/s"), ("Mx", "Wb"), ("G", "T"), ("Oe", "/[pi].A/m"), ("Gb", "Oe.cm"),
    ("sb", "cd/cm2"), ("Lmb", "cd/cm2/[pi]"), ("ph", "lx"), ("Ci", "Bq"), ("R", "C/kg"),
    ("RAD", "erg/g"), ("REM", "RAD"), ("[in_i]", "cm"), ("[ft_i]", "[in_i]"),
    ("[yd_i]", "[ft_i]"), ("[mi_i]", "[ft_i]"), ("[fth_i]", "[ft_i]"), ("[nmi_i]", "m"),
    ("[kn_i]", "[nmi_i]/h"), ("[sin_i]", "[in_i]2"), ("[sft_i]", "[ft_i]2"),
    ("[syd_i]", "[yd_i]2"), ("[cin_i]", "[in_i]3"), ("[cft_i]", "[ft_i]3"),
    ("[cyd_i]", "[yd_i]3"), ("[bf_i]", "[in_i]3"), ("[cr_i]", "[ft_i]3"),
    ("[mil_i]", "[in_i]"), ("[cml_i]", "[pi]/4.[mil_i]2"), ("[hd_i]", "[in_i]"),
    ("[ft_us]", "m"), ("[yd_us]", "[ft_us]"), ("[in_us]", "[ft_us]"),
    ("[rd_us]", "[ft_us]"), ("[ch_us]", "[rd_us]"), ("[lk_us]", "[ch_us]"),
    ("[rch_us]", "[ft_us]"), ("[rlk_us]", "[rch_us]"), ("[fth_us]", "[ft_us]"),
    ("[fur_us]", "[rd_us]"), ("[mi_us]", "[fur_us]"), ("[acr_us]", "[rd_us]2"),
    ("[srd_us]", "[rd_us]2"), ("[smi_us]", "[mi_us]2"), ("[sct]", "[mi_us]2"),
    ("[twp]", "[sct]"), ("[mil_us]", "[in_us]"), ("[in_br]", "cm"), ("[ft_br]", "[in_br]"),
    ("[rd_br]", "[ft_br]"), ("[ch_br]", "[rd_br]"), ("[lk_br]", "[ch_br]/100"),
    ("[fth_br]", "[ft_br]"), ("[pc_br]", "[ft_br]"), ("[yd_br]", "[ft_br]"),
    ("[mi_br]", "[ft_br]"), ("[nmi_br]", "[ft_br]"), ("[kn_br]", "[nmi_br]/h"),
    ("[acr_br]", "[yd_br]2"), ("[gal_us]", "[in_i]3"), ("[bbl_us]", "[gal_us]"),
    ("[qt_us]", "[gal_us]/4"), ("[pt_us]", "[qt_us]/2"), ("[gil_us]", "[pt_us]/4"),
    ("[foz_us]", "[gil_us]/4"), ("[fdr_us]", "[foz_us]/8"), ("[min_us]", "[fdr_us]/60"),
    ("[crd_us]", "[ft_i]3"), ("[bu_us]", "[in_i]3"), ("[gal_wi]", "[bu_us]/8"),
    ("[pk_us]", "[bu_us]/4"), ("[dqt_us]", "[pk_us]/8"), ("[dpt_us]", "[dqt_us]/2"),
    ("[tbs_us]", "[foz_us]/2"), ("[tsp_us]", "[tbs_us]/3"), ("[cup_us]", "[tbs_us]"),
    ("[foz_m]", "mL"), ("[cup_m]", "mL"), ("[tsp_m]", "mL"), ("[tbs_m]", "mL"),
    ("[gal_br]", "l"), ("[pk_br]", "[gal_br]"), ("[bu_br]", "[pk_br]"),
    ("[qt_br]", "[gal_br]/4"), ("[pt_br]", "[qt_br]/2"), ("[gil_br]", "[pt_br]/4"),
    ("[foz_br]", "[gil_br]/5"), ("[fdr_br]", "[foz_br]/8"), ("[min_br]", "[fdr_br]/60"),
    ("[gr]", "mg"), ("[lb_av]", "[gr]"), ("[oz_av]", "[lb_av]/16"),
    ("[dr_av]", "[oz_av]/16"), ("[scwt_av]", "[lb_av]"), ("[lcwt_av]", "[lb_av]"),
    ("[ston_av]", "[scwt_av]"), ("[lton_av]", "[lcwt_av]"), ("[stone_av]", "[lb_av]"),
    ("[pwt_tr]", "[gr]"), ("[oz_tr]", "[pwt_tr]"), ("[lb_tr]", "[oz_tr]"),
    ("[sc_ap]", "[gr]"), ("[dr_ap]", "[sc_ap]"), ("[oz_ap]", "[dr_ap]"),
    ("[lb_ap]", "[oz_ap]"), ("[oz_m]", "g"), ("[lne]", "[in_i]/12"), ("[pnt]", "[lne]/6"),
    ("[pca]", "[pnt]"), ("[pnt_pr]", "[in_i]"), ("[pca_pr]", "[pnt_pr]"), ("[pied]", "cm"),
    ("[pouce]", "[pied]/12"), ("[ligne]", "[pouce]/12"), ("[didot]", "[ligne]/6"),
    ("[cicero]", "[didot]"), ("[degF]", "=degf(5/9 K)"), ("[degR]", "K/9"),
    ("[degRe]", "=degre(5/4 K)"), ("cal_[15]", "J"), ("cal_[20]", "J"), ("cal_m", "J"),
    ("cal_IT", "J"), ("cal_th", "J"), ("cal", "cal_th"), ("[Cal]", "kcal_th"),
    ("[Btu_39]", "kJ"), ("[Btu_59]", "kJ"), ("[Btu_60]", "kJ"), ("[Btu_m]", "kJ"),
    ("[Btu_IT]", "kJ"), ("[Btu_th]", "kJ"), ("[Btu]", "[Btu_th]"),
    ("[HP]", "[ft_i].[lbf_av]/s"), ("tex", "g/km"), ("[den]", "g/9/km"), ("m[H2O]", "kPa"),
    ("m[Hg]", "kPa"), ("[in_i'H2O]", "m[H2O].[in_i]/m"), ("[in_i'Hg]", "m[Hg].[in_i]/m"),
    ("[PRU]", "mm[Hg].s/ml"), ("[wood'U]", "mm[Hg].min/L"), ("[diop]", "/m"),
    ("[p'diop]", "=tan(1, rad)"), ("%[slope]", "=tan(1, rad)"), ("[mesh_i]", "/[in_i]"),
    ("[Ch]", "mm/3"), ("[drp]", "ml/20"), ("[hnsf'U]", "1"), ("[MET]", "=mL/min/kg"),
    ("[hp'_X]", "=hpX(1, 1)"), ("[hp'_C]", "=hpC(1, 1)"), ("[hp'_M]", "=hpM(1, 1)"),
    ("[hp'_Q]", "=hpQ(1, 1)"), ("[hp_X]", "="), ("[hp_C]", "="), ("[hp_M]", "="),
    ("[hp_Q]", "="), ("[kp_X]", "="), ("[kp_C]", "="), ("[kp_M]", "="), ("[kp_Q]", "="),
    ("eq", "mol"), ("osm", "mol"), ("[pH]", "=pH(1., mol/l)"), ("g% 1", "g/dl"),
    ("[S]", "10*-13.s"), ("[HPF]", "1"), ("[LPF]", "1"), ("kat", "mol/s"),
    ("U", "umol/min"), ("[iU]", "="), ("[IU]", "="), ("[arb'U]", "="), ("[USP'U]", "="),
    ("[GPL'U]", "="), ("[MPL'U]", "="), ("[APL'U]", "="), ("[beth'U]", "="),
    ("[anti'Xa'U]", "="), ("[todd'U]", "="), ("[dye'U]", "="), ("[smgy'U]", "="),
    ("[bdsk'U]", "="), ("[ka'U]", "="), ("[knk'U]", "="), ("[mclg'U]", "="),
    ("[tb'U]", "="), ("[CCID_50]", "="), ("[TCID_50]", "="), ("[EID_50]", "="),
    ("[PFU]", "="), ("[FFU]", "="), ("[CFU]", "="), ("[IR]", "="), ("[BAU]", "="),
    ("[AU]", "="), ("[Amb'a'1'U]", "="), ("[PNU]", "="), ("[Lf]", "="), ("[D'ag'U]", "="),
    ("[FEU]", "="), ("[ELU]", "="), ("[EU]", "="), ("Np", "=ln(1, 1)"), ("B", "=lg(1, 1)"),
    ("B[SPL]", "=2*lg(2, 10e-5 Pa)"), ("B[V]", "=2*lg(1., V)"), ("B[mV]", "=2*lg(1., mV)"),
    ("B[uV]", "=2*lg(1., uV)"), ("B[10.nV]", "=2*lg(10., nV)"), ("B[W]", "=lg(1., W)"),
    ("B[kW]", "=lg(1., kW)"), ("st", "m3"), ("Ao", "nm"), ("b", "fm2"), ("att", "kgf/cm2"),
    ("mho", "S"), ("[psi]", "[lbf_av]/[in_i]2"), ("circ", "[pi].rad"), ("sph", "[pi].sr"),
    ("[car_m]", "g"), ("[car_Au]", "/24"), ("[smoot]", "[in_i]"),
    ("[m/s2/Hz^(1/2)]", "=sqrt(1., m2/s4/Hz)"), ("bit_s", "ld(1 1)"), ("bit", "1"),
    ("By", "bit"), ("Bd", "/s"), ("{tot}", "1"), ("{tbl}", "1"), ("{rbc}", "1"),
    ("g.m/{H.B.}", "g.m"), ("gf.m/{H.B.}", "gf.m"), ("kg{wet'tis}", "kg"),
    ("mg{creat}", "mg"),
];

/// Whether `s` is one of the prefixes.
pub open spec fn is_prefix_symbol(s: Seq<char>) -> bool {
    exists|i: int| 0 <= i < PREFIXES@.len() && #[trigger] PREFIXES@[i]@ == s
}

/// Whether `s` is a unit atom that takes a prefix.
pub open spec fn is_metric_atom(s: Seq<char>) -> bool {
    exists|i: int| 0 <= i < METRIC_UNIT_ATOMS@.len() && #[trigger] METRIC_UNIT_ATOMS@[i]@ == s
}

/// Whether `s` is a unit atom that takes no prefix.
pub open spec fn is_non_metric_atom(s: Seq<char>) -> bool {
    exists|i: int|
        0 <= i < NON_METRIC_UNIT_ATOMS@.len() && #[trigger] NON_METRIC_UNIT_ATOMS@[i]@ == s
}

/// The definition of the first conversion at or after index `i` whose atom
/// is `atom`.
pub open spec fn conversion_from(atom: Seq<char>, i: int) -> Option<Seq<char>>
    decreases CONVERSIONS@.len() - i,
{
    if i < 0 || i >= CONVERSIONS@.len() {
        None
    } else if CONVERSIONS@[i].0@ == atom {
        Some(CONVERSIONS@[i].1@)
    } else {
        conversion_from(atom, i + 1)
    }
}

/// The definition that the conversions give for `atom`, if there is one.
pub open spec fn conversion(atom: Seq<char>) -> Option<Seq<char>> {
    conversion_from(atom, 0)
}

/// The scale of the first entry at or after index `i` whose prefix is
/// `prefix`, as a numerator and a denominator.
pub open spec fn prefix_scale_from(prefix: Seq<char>, i: int) -> Option<(int, int)>
    decreases PREFIX_SCALES@.len() - i,
{
    if i < 0 || i >= PREFIX_SCALES@.len() {
        None
    } else if PREFIX_SCALES@[i].0@ == prefix {
        Some((PREFIX_SCALES@[i].1 as int, PREFIX_SCALES@[i].2 as int))
    } else {
        prefix_scale_from(prefix, i + 1)
    }
}

/// The scale of `prefix`, as a numerator and a denominator, if `prefix` is
/// one of the prefixes.
pub open spec fn prefix_scale(prefix: Seq<char>) -> Option<(int, int)> {
    prefix_scale_from(prefix, 0)
}

/// Whether `s` is one of the prefixes.
pub fn is_prefix(s: &str) -> (r: bool)
    ensures
        r == is_prefix_symbol(s@),
{
    let mut i: usize = 0;
    while i < 23
        invariant
            i <= 23,
            forall|j: int| 0 <= j < i ==> #[trigger] PREFIXES@[j]@ != s@,
        decreases 23 - i,
    {
        if str_eq(PREFIXES[i], s) {
            return true;
        }
        i += 1;
    }
    false
}

/// Whether `s` is a unit atom that takes a prefix.
pub fn is_metric(s: &str) -> (r: bool)
    ensures
        r == is_metric_atom(s@),
{
    let mut i: usize = 0;
    while i < 96
        invariant
            i <= 96,
            forall|j: int| 0 <= j < i ==> #[trigger] METRIC_UNIT_ATOMS@[j]@ != s@,
        decreases 96 - i,
    {
        if str_eq(METRIC_UNIT_ATOMS[i], s) {
            return true;
        }
        i += 1;
    }
    false
}

/// Whether `s` is a unit atom that takes no prefix.
pub fn is_non_metric(s: &str) -> (r: bool)
    ensures
        r == is_non_metric_atom(s@),
{
    let mut i: usize = 0;
    while i < 221
        invariant
            i <= 221,
            forall|j: int| 0 <= j < i ==> #[trigger] NON_METRIC_UNIT_ATOMS@[j]@ != s@,
        decreases 221 - i,
    {
        if str_eq(NON_METRIC_UNIT_ATOMS[i], s) {
            return true;
        }
        i += 1;
    }
    false
}

/// The definition that the conversions give for `atom`, if there is one.
pub fn find_conversion(atom: &str) -> (r: Option<&'static str>)
    ensures
        match r {
            Some(definition) => conversion(atom@) == Some(definition@),
            None => conversion(atom@) is None,
        },
{
    let mut i: usize = 0;
    while i < 316
        invariant
            i <= 316,
            conversion(atom@) == conversion_from(atom@, i as int),
        decreases 316 - i,
    {
        if str_eq(CONVERSIONS[i].0, atom) {
            return Some(CONVERSIONS[i].1);
        }
        i += 1;
    }
    None
}

/// The scale of `prefix`, as a numerator and a denominator, if `prefix` is
/// one of the prefixes.
pub fn find_prefix_scale(prefix: &str) -> (r: Option<(i128, i128)>)
    ensures
        match r {
            Some((num, den)) => prefix_scale(prefix@) == Some((num as int, den as int)),
            None => prefix_scale(prefix@) is None,
        },
{
    let mut i: usize = 0;
    while i < 24
        invariant
            i <= 24,
            prefix_scale(prefix@) == prefix_scale_from(prefix@, i as int),
        decreases 24 - i,
    {
        if str_eq(PREFIX_SCALES[i].0, prefix) {
            return Some((PREFIX_SCALES[i].1, PREFIX_SCALES[i].2));
        }
        i += 1;
    }
    None
}

} // verus!
