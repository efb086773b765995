//! What the tables hold, character by character, and what follows for the
//! split of a unit symbol into prefix and atom.

use crate::tables::{
    is_metric_atom, is_non_metric_atom, is_prefix_symbol, METRIC_UNIT_ATOMS,
    NON_METRIC_UNIT_ATOMS, PREFIXES,
};
use crate::unit::{prefix_len, unit_of};
use vstd::prelude::*;

verus! {

/// Whether `x` is, character by character, one of the prefixes.
pub open spec fn prefix_shape(x: Seq<char>) -> bool {
    ||| (x.len() == 1 && x[0] == 'Y')
    ||| (x.len() == 1 && x[0] == 'Z')
    ||| (x.len() == 1 && x[0] == 'E')
    ||| (x.len() == 1 && x[0] == 'P')
    ||| (x.len() == 1 && x[0] == 'T')
    ||| (x.len() == 1 && x[0] == 'G')
    ||| (x.len() == 1 && x[0] == 'M')
    ||| (x.len() == 1 && x[0] == 'k')
    ||| (x.len() == 1 && x[0] == 'h')
    ||| (x.len() == 2 && x[0] == 'd' && x[1] == 'a')
    ||| (x.len() == 1 && x[0] == 'd')
    ||| (x.len() == 1 && x[0] == 'c')
    ||| (x.len() == 2 && x[0] == 'm' && x[1] == 'u')
    ||| (x.len() == 1 && x[0] == 'n')
    ||| (x.len() == 1 && x[0] == 'p')
    ||| (x.len() == 1 && x[0] == 'f')
    ||| (x.len() == 1 && x[0] == 'a')
    ||| (x.len() == 1 && x[0] == 'z')
    ||| (x.len() == 1 && x[0] == 'y')
    ||| (x.len() == 2 && x[0] == 'K' && x[1] == 'i')
    ||| (x.len() == 2 && x[0] == 'M' && x[1] == 'i')
    ||| (x.len() == 2 && x[0] == 'G' && x[1] == 'i')
    ||| (x.len() == 2 && x[0] == 'T' && x[1] == 'i')
}

/// The entries 0 to 22 of the table are what `prefix_shape` says.
proof fn lemma_prefix_shape_0(i: int)
    requires
        0 <= i < 23,
    ensures
        prefix_shape(PREFIXES@[i]@),
{
    if i == 0 {
        reveal_strlit("Y");
        assert(PREFIXES@[0]@ == "Y"@);
    } else if i == 1 {
        reveal_strlit("Z");
        assert(PREFIXES@[1]@ == "Z"@);
    } else if i == 2 {
        reveal_strlit("E");
        assert(PREFIXES@[2]@ == "E"@);
    } else if i == 3 {
        reveal_strlit("P");
        assert(PREFIXES@[3]@ == "P"@);
    } else if i == 4 {
        reveal_strlit("T");
        assert(PREFIXES@[4]@ == "T"@);
    } else if i == 5 {
        reveal_strlit("G");
        assert(PREFIXES@[5]@ == "G"@);
    } else if i == 6 {
        reveal_strlit("M");
        assert(PREFIXES@[6]@ == "M"@);
    } else if i == 7 {
        reveal_strlit("k");
        assert(PREFIXES@[7]@ == "k"@);
    } else if i == 8 {
        reveal_strlit("h");
        assert(PREFIXES@[8]@ == "h"@);
    } else if i == 9 {
        reveal_strlit("da");
        assert(PREFIXES@[9]@ == "da"@);
    } else if i == 10 {
        reveal_strlit("d");
        assert(PREFIXES@[10]@ == "d"@);
    } else if i == 11 {
        reveal_strlit("c");
        assert(PREFIXES@[11]@ == "c"@);
    } else if i == 12 {
        reveal_strlit("mu");
        assert(PREFIXES@[12]@ == "mu"@);
    } else if i == 13 {
        reveal_strlit("n");
        assert(PREFIXES@[13]@ == "n"@);
    } else if i == 14 {
        reveal_strlit("p");
        assert(PREFIXES@[14]@ == "p"@);
    } else if i == 15 {
        reveal_strlit("f");
        assert(PREFIXES@[15]@ == "f"@);
    } else if i == 16 {
        reveal_strlit("a");
        assert(PREFIXES@[16]@ == "a"@);
    } else if i == 17 {
        reveal_strlit("z");
        assert(PREFIXES@[17]@ == "z"@);
    } else if i == 18 {
        reveal_strlit("y");
        assert(PREFIXES@[18]@ == "y"@);
    } else if i == 19 {
        reveal_strlit("Ki");
        assert(PREFIXES@[19]@ == "Ki"@);
    } else if i == 20 {
        reveal_strlit("Mi");
        assert(PREFIXES@[20]@ == "Mi"@);
    } else if i == 21 {
        reveal_strlit("Gi");
        assert(PREFIXES@[21]@ == "Gi"@);
    } else {
        reveal_strlit("Ti");
        assert(PREFIXES@[22]@ == "Ti"@);
    }
}

/// Every prefixe is what `prefix_shape` says.
pub proof fn lemma_prefix_shape(x: Seq<char>)
    requires
        is_prefix_symbol(x),
    ensures
        prefix_shape(x),
{
    let i = choose|i: int| 0 <= i < PREFIXES@.len() && #[trigger] PREFIXES@[i]@ == x;
    if i < 23 {
        lemma_prefix_shape_0(i);
    }
}

/// Whether `x` is, character by character, one of the metric unit atoms.
pub open spec fn metric_shape(x: Seq<char>) -> bool {
    ||| (x.len() == 1 && x[0] == 'm')
    ||| (x.len() == 1 && x[0] == 's')
    ||| (x.len() == 1 && x[0] == 'g')
    ||| (x.len() == 3 && x[0] == 'r' && x[1] == 'a' && x[2] == 'd')
    ||| (x.len() == 1 && x[0] == 'K')
    ||| (x.len() == 1 && x[0] == 'C')
    ||| (x.len() == 2 && x[0] == 'c' && x[1] == 'd')
    ||| (x.len() == 3 && x[0] == 'm' && x[1] == 'o' && x[2] == 'l')
    ||| (x.len() == 2 && x[0] == 's' && x[1] == 'r')
    ||| (x.len() == 2 && x[0] == 'H' && x[1] == 'z')
    ||| (x.len() == 1 && x[0] == 'N')
    ||| (x.len() == 2 && x[0] == 'P' && x[1] == 'a')
    ||| (x.len() == 1 && x[0] == 'J')
    ||| (x.len() == 1 && x[0] == 'W')
    ||| (x.len() == 1 && x[0] == 'A')
    ||| (x.len() == 1 && x[0] == 'V')
    ||| (x.len() == 1 && x[0] == 'F')
    ||| (x.len() == 3 && x[0] == 'O' && x[1] == 'h' && x[2] == 'm')
    ||| (x.len() == 1 && x[0] == 'S')
    ||| (x.len() == 2 && x[0] == 'W' && x[1] == 'b')
    ||| (x.len() == 3 && x[0] == 'C' && x[1] == 'e' && x[2] == 'l')
    ||| (x.len() == 1 && x[0] == 'T')
    ||| (x.len() == 1 && x[0] == 'H')
    ||| (x.len() == 2 && x[0] == 'l' && x[1] == 'm')
    ||| (x.len() == 2 && x[0] == 'l' && x[1] == 'x')
    ||| (x.len() == 2 && x[0] == 'B' && x[1] == 'q')
    ||| (x.len() == 2 && x[0] == 'G' && x[1] == 'y')
    ||| (x.len() == 2 && x[0] == 'S' && x[1] == 'v')
    ||| (x.len() == 1 && x[0] == 'l')
    ||| (x.len() == 1 && x[0] == 'L')
    ||| (x.len() == 2 && x[0] == 'a' && x[1] == 'r')
    ||| (x.len() == 1 && x[0] == 't')
    ||| (x.len() == 3 && x[0] == 'b' && x[1] == 'a' && x[2] == 'r')
    ||| (x.len() == 1 && x[0] == 'u')
    ||| (x.len() == 2 && x[0] == 'e' && x[1] == 'V')
    ||| (x.len() == 2 && x[0] == 'p' && x[1] == 'c')
    ||| (x.len() == 3 && x[0] == '[' && x[1] == 'c' && x[2] == ']')
    ||| (x.len() == 3 && x[0] == '[' && x[1] == 'h' && x[2] == ']')
    ||| (x.len() == 3 && x[0] == '[' && x[1] == 'k' && x[2] == ']')
    ||| (x.len() == 7 && x[0] == '[' && x[1] == 'e' && x[2] == 'p' && x[3] == 's' && x[4] == '_' && x[5] == '0' && x[6] == ']')
    ||| (x.len() == 6 && x[0] == '[' && x[1] == 'm' && x[2] == 'u' && x[3] == '_' && x[4] == '0' && x[5] == ']')
    ||| (x.len() == 3 && x[0] == '[' && x[1] == 'e' && x[2] == ']')
    ||| (x.len() == 5 && x[0] == '[' && x[1] == 'm' && x[2] == '_' && x[3] == 'e' && x[4] == ']')
    ||| (x.len() == 5 && x[0] == '[' && x[1] == 'm' && x[2] == '_' && x[3] == 'p' && x[4] == ']')
    ||| (x.len() == 3 && x[0] == '[' && x[1] == 'G' && x[2] == ']')
    ||| (x.len() == 3 && x[0] == '[' && x[1] == 'g' && x[2] == ']')
    ||| (x.len() == 4 && x[0] == '[' && x[1] == 'l' && x[2] == 'y' && x[3] == ']')
    ||| (x.len() == 2 && x[0] == 'g' && x[1] == 'f')
    ||| (x.len() == 2 && x[0] == 'K' && x[1] == 'y')
    ||| (x.len() == 3 && x[0] == 'G' && x[1] == 'a' && x[2] == 'l')
    ||| (x.len() == 3 && x[0] == 'd' && x[1] == 'y' && x[2] == 'n')
    ||| (x.len() == 3 && x[0] == 'e' && x[1] == 'r' && x[2] == 'g')
    ||| (x.len() == 1 && x[0] == 'P')
    ||| (x.len() == 2 && x[0] == 'B' && x[1] == 'i')
    ||| (x.len() == 2 && x[0] == 'S' && x[1] == 't')
    ||| (x.len() == 2 && x[0] == 'M' && x[1] == 'x')
    ||| (x.len() == 1 && x[0] == 'G')
    ||| (x.len() == 2 && x[0] == 'O' && x[1] == 'e')
    ||| (x.len() == 2 && x[0] == 'G' && x[1] == 'b')
    ||| (x.len() == 2 && x[0] == 's' && x[1] == 'b')
    ||| (x.len() == 3 && x[0] == 'L' && x[1] == 'm' && x[2] == 'b')
    ||| (x.len() == 2 && x[0] == 'p' && x[1] == 'h')
    ||| (x.len() == 2 && x[0] == 'C' && x[1] == 'i')
    ||| (x.len() == 1 && x[0] == 'R')
    ||| (x.len() == 3 && x[0] == 'R' && x[1] == 'A' && x[2] == 'D')
    ||| (x.len() == 3 && x[0] == 'R' && x[1] == 'E' && x[2] == 'M')
    ||| (x.len() == 8 && x[0] == 'c' && x[1] == 'a' && x[2] == 'l' && x[3] == '_' && x[4] == '[' && x[5] == '1' && x[6] == '5' && x[7] == ']')
    ||| (x.len() == 8 && x[0] == 'c' && x[1] == 'a' && x[2] == 'l' && x[3] == '_' && x[4] == '[' && x[5] == '2' && x[6] == '0' && x[7] == ']')
    ||| (x.len() == 5 && x[0] == 'c' && x[1] == 'a' && x[2] == 'l' && x[3] == '_' && x[4] == 'm')
    ||| (x.len() == 6 && x[0] == 'c' && x[1] == 'a' && x[2] == 'l' && x[3] == '_' && x[4] == 'I' && x[5] == 'T')
    ||| (x.len() == 6 && x[0] == 'c' && x[1] == 'a' && x[2] == 'l' && x[3] == '_' && x[4] == 't' && x[5] == 'h')
    ||| (x.len() == 3 && x[0] == 'c' && x[1] == 'a' && x[2] == 'l')
    ||| (x.len() == 3 && x[0] == 't' && x[1] == 'e' && x[2] == 'x')
    ||| (x.len() == 6 && x[0] == 'm' && x[1] == '[' && x[2] == 'H' && x[3] == '2' && x[4] == 'O' && x[5] == ']')
    ||| (x.len() == 5 && x[0] == 'm' && x[1] == '[' && x[2] == 'H' && x[3] == 'g' && x[4] == ']')
    ||| (x.len() == 2 && x[0] == 'e' && x[1] == 'q')
    ||| (x.len() == 3 && x[0] == 'o' && x[1] == 's' && x[2] == 'm')
    ||| (x.len() == 2 && x[0] == 'g' && x[1] == '%')
    ||| (x.len() == 3 && x[0] == 'k' && x[1] == 'a' && x[2] == 't')
    ||| (x.len() == 1 && x[0] == 'U')
    ||| (x.len() == 4 && x[0] == '[' && x[1] == 'i' && x[2] == 'U' && x[3] == ']')
    ||| (x.len() == 4 && x[0] == '[' && x[1] == 'I' && x[2] == 'U' && x[3] == ']')
    ||| (x.len() == 2 && x[0] == 'N' && x[1] == 'p')
    ||| (x.len() == 1 && x[0] == 'B')
    ||| (x.len() == 6 && x[0] == 'B' && x[1] == '[' && x[2] == 'S' && x[3] == 'P' && x[4] == 'L' && x[5] == ']')
    ||| (x.len() == 4 && x[0] == 'B' && x[1] == '[' && x[2] == 'V' && x[3] == ']')
    ||| (x.len() == 5 && x[0] == 'B' && x[1] == '[' && x[2] == 'm' && x[3] == 'V' && x[4] == ']')
    ||| (x.len() == 5 && x[0] == 'B' && x[1] == '[' && x[2] == 'u' && x[3] == 'V' && x[4] == ']')
    ||| (x.len() == 8 && x[0] == 'B' && x[1] == '[' && x[2] == '1' && x[3] == '0' && x[4] == '.' && x[5] == 'n' && x[6] == 'V' && x[7] == ']')
    ||| (x.len() == 4 && x[0] == 'B' && x[1] == '[' && x[2] == 'W' && x[3] == ']')
    ||| (x.len() == 5 && x[0] == 'B' && x[1] == '[' && x[2] == 'k' && x[3] == 'W' && x[4] == ']')
    ||| (x.len() == 2 && x[0] == 's' && x[1] == 't')
    ||| (x.len() == 3 && x[0] == 'm' && x[1] == 'h' && x[2] == 'o')
    ||| (x.len() == 3 && x[0] == 'b' && x[1] == 'i' && x[2] == 't')
    ||| (x.len() == 2 && x[0] == 'B' && x[1] == 'y')
    ||| (x.len() == 2 && x[0] == 'B' && x[1] == 'd')
}

/// The entries 0 to 23 of the table are what `metric_shape` says.
proof fn lemma_metric_shape_0(i: int)
    requires
        0 <= i < 24,
    ensures
        metric_shape(METRIC_UNIT_ATOMS@[i]@),
{
    if i == 0 {
        reveal_strlit("m");
        assert(METRIC_UNIT_ATOMS@[0]@ == "m"@);
    } else if i == 1 {
        reveal_strlit("s");
        assert(METRIC_UNIT_ATOMS@[1]@ == "s"@);
    } else if i == 2 {
        reveal_strlit("g");
        assert(METRIC_UNIT_ATOMS@[2]@ == "g"@);
    } else if i == 3 {
        reveal_strlit("rad");
        assert(METRIC_UNIT_ATOMS@[3]@ == "rad"@);
    } else if i == 4 {
        reveal_strlit("K");
        assert(METRIC_UNIT_ATOMS@[4]@ == "K"@);
    } else if i == 5 {
        reveal_strlit("C");
        assert(METRIC_UNIT_ATOMS@[5]@ == "C"@);
    } else if i == 6 {
        reveal_strlit("cd");
        assert(METRIC_UNIT_ATOMS@[6]@ == "cd"@);
    } else if i == 7 {
        reveal_strlit("mol");
        assert(METRIC_UNIT_ATOMS@[7]@ == "mol"@);
    } else if i == 8 {
        reveal_strlit("sr");
        assert(METRIC_UNIT_ATOMS@[8]@ == "sr"@);
    } else if i == 9 {
        reveal_strlit("Hz");
        assert(METRIC_UNIT_ATOMS@[9]@ == "Hz"@);
    } else if i == 10 {
        reveal_strlit("N");
        assert(METRIC_UNIT_ATOMS@[10]@ == "N"@);
    } else if i == 11 {
        reveal_strlit("Pa");
        assert(METRIC_UNIT_ATOMS@[11]@ == "Pa"@);
    } else if i == 12 {
        reveal_strlit("J");
        assert(METRIC_UNIT_ATOMS@[12]@ == "J"@);
    } else if i == 13 {
        reveal_strlit("W");
        assert(METRIC_UNIT_ATOMS@[13]@ == "W"@);
    } else if i == 14 {
        reveal_strlit("A");
        assert(METRIC_UNIT_ATOMS@[14]@ == "A"@);
    } else if i == 15 {
        reveal_strlit("V");
        assert(METRIC_UNIT_ATOMS@[15]@ == "V"@);
    } else if i == 16 {
        reveal_strlit("F");
        assert(METRIC_UNIT_ATOMS@[16]@ == "F"@);
    } else if i == 17 {
        reveal_strlit("Ohm");
        assert(METRIC_UNIT_ATOMS@[17]@ == "Ohm"@);
    } else if i == 18 {
        reveal_strlit("S");
        assert(METRIC_UNIT_ATOMS@[18]@ == "S"@);
    } else if i == 19 {
        reveal_strlit("Wb");
        assert(METRIC_UNIT_ATOMS@[19]@ == "Wb"@);
    } else if i == 20 {
        reveal_strlit("Cel");
        assert(METRIC_UNIT_ATOMS@[20]@ == "Cel"@);
    } else if i == 21 {
        reveal_strlit("T");
        assert(METRIC_UNIT_ATOMS@[21]@ == "T"@);
    } else if i == 22 {
        reveal_strlit("H");
        assert(METRIC_UNIT_ATOMS@[22]@ == "H"@);
    } else {
        reveal_strlit("lm");
        assert(METRIC_UNIT_ATOMS@[23]@ == "lm"@);
    }
}

/// The entries 24 to 47 of the table are what `metric_shape` says.
proof fn lemma_metric_shape_1(i: int)
    requires
        24 <= i < 48,
    ensures
        metric_shape(METRIC_UNIT_ATOMS@[i]@),
{
    if i == 24 {
        reveal_strlit("lx");
        assert(METRIC_UNIT_ATOMS@[24]@ == "lx"@);
    } else if i == 25 {
        reveal_strlit("Bq");
        assert(METRIC_UNIT_ATOMS@[25]@ == "Bq"@);
    } else if i == 26 {
        reveal_strlit("Gy");
        assert(METRIC_UNIT_ATOMS@[26]@ == "Gy"@);
    } else if i == 27 {
        reveal_strlit("Sv");
        assert(METRIC_UNIT_ATOMS@[27]@ == "Sv"@);
    } else if i == 28 {
        reveal_strlit("l");
        assert(METRIC_UNIT_ATOMS@[28]@ == "l"@);
    } else if i == 29 {
        reveal_strlit("L");
        assert(METRIC_UNIT_ATOMS@[29]@ == "L"@);
    } else if i == 30 {
        reveal_strlit("ar");
        assert(METRIC_UNIT_ATOMS@[30]@ == "ar"@);
    } else if i == 31 {
        reveal_strlit("t");
        assert(METRIC_UNIT_ATOMS@[31]@ == "t"@);
    } else if i == 32 {
        reveal_strlit("bar");
        assert(METRIC_UNIT_ATOMS@[32]@ == "bar"@);
    } else if i == 33 {
        reveal_strlit("u");
        assert(METRIC_UNIT_ATOMS@[33]@ == "u"@);
    } else if i == 34 {
        reveal_strlit("eV");
        assert(METRIC_UNIT_ATOMS@[34]@ == "eV"@);
    } else if i == 35 {
        reveal_strlit("pc");
        assert(METRIC_UNIT_ATOMS@[35]@ == "pc"@);
    } else if i == 36 {
        reveal_strlit("[c]");
        assert(METRIC_UNIT_ATOMS@[36]@ == "[c]"@);
    } else if i == 37 {
        reveal_strlit("[h]");
        assert(METRIC_UNIT_ATOMS@[37]@ == "[h]"@);
    } else if i == 38 {
        reveal_strlit("[k]");
        assert(METRIC_UNIT_ATOMS@[38]@ == "[k]"@);
    } else if i == 39 {
        reveal_strlit("[eps_0]");
        assert(METRIC_UNIT_ATOMS@[39]@ == "[eps_0]"@);
    } else if i == 40 {
        reveal_strlit("[mu_0]");
        assert(METRIC_UNIT_ATOMS@[40]@ == "[mu_0]"@);
    } else if i == 41 {
        reveal_strlit("[e]");
        assert(METRIC_UNIT_ATOMS@[41]@ == "[e]"@);
    } else if i == 42 {
        reveal_strlit("[m_e]");
        assert(METRIC_UNIT_ATOMS@[42]@ == "[m_e]"@);
    } else if i == 43 {
        reveal_strlit("[m_p]");
        assert(METRIC_UNIT_ATOMS@[43]@ == "[m_p]"@);
    } else if i == 44 {
        reveal_strlit("[G]");
        assert(METRIC_UNIT_ATOMS@[44]@ == "[G]"@);
    } else if i == 45 {
        reveal_strlit("[g]");
        assert(METRIC_UNIT_ATOMS@[45]@ == "[g]"@);
    } else if i == 46 {
        reveal_strlit("[ly]");
        assert(METRIC_UNIT_ATOMS@[46]@ == "[ly]"@);
    } else {
        reveal_strlit("gf");
        assert(METRIC_UNIT_ATOMS@[47]@ == "gf"@);
    }
}

/// The entries 48 to 71 of the table are what `metric_shape` says.
proof fn lemma_metric_shape_2(i: int)
    requires
        48 <= i < 72,
    ensures
        metric_shape(METRIC_UNIT_ATOMS@[i]@),
{
    if i == 48 {
        reveal_strlit("Ky");
        assert(METRIC_UNIT_ATOMS@[48]@ == "Ky"@);
    } else if i == 49 {
        reveal_strlit("Gal");
        assert(METRIC_UNIT_ATOMS@[49]@ == "Gal"@);
    } else if i == 50 {
        reveal_strlit("dyn");
        assert(METRIC_UNIT_ATOMS@[50]@ == "dyn"@);
    } else if i == 51 {
        reveal_strlit("erg");
        assert(METRIC_UNIT_ATOMS@[51]@ == "erg"@);
    } else if i == 52 {
        reveal_strlit("P");
        assert(METRIC_UNIT_ATOMS@[52]@ == "P"@);
    } else if i == 53 {
        reveal_strlit("Bi");
        assert(METRIC_UNIT_ATOMS@[53]@ == "Bi"@);
    } else if i == 54 {
        reveal_strlit("St");
        assert(METRIC_UNIT_ATOMS@[54]@ == "St"@);
    } else if i == 55 {
        reveal_strlit("Mx");
        assert(METRIC_UNIT_ATOMS@[55]@ == "Mx"@);
    } else if i == 56 {
        reveal_strlit("G");
        assert(METRIC_UNIT_ATOMS@[56]@ == "G"@);
    } else if i == 57 {
        reveal_strlit("Oe");
        assert(METRIC_UNIT_ATOMS@[57]@ == "Oe"@);
    } else if i == 58 {
        reveal_strlit("Gb");
        assert(METRIC_UNIT_ATOMS@[58]@ == "Gb"@);
    } else if i == 59 {
        reveal_strlit("sb");
        assert(METRIC_UNIT_ATOMS@[59]@ == "sb"@);
    } else if i == 60 {
        reveal_strlit("Lmb");
        assert(METRIC_UNIT_ATOMS@[60]@ == "Lmb"@);
    } else if i == 61 {
        reveal_strlit("ph");
        assert(METRIC_UNIT_ATOMS@[61]@ == "ph"@);
    } else if i == 62 {
        reveal_strlit("Ci");
        assert(METRIC_UNIT_ATOMS@[62]@ == "Ci"@);
    } else if i == 63 {
        reveal_strlit("R");
        assert(METRIC_UNIT_ATOMS@[63]@ == "R"@);
    } else if i == 64 {
        reveal_strlit("RAD");
        assert(METRIC_UNIT_ATOMS@[64]@ == "RAD"@);
    } else if i == 65 {
        reveal_strlit("REM");
        assert(METRIC_UNIT_ATOMS@[65]@ == "REM"@);
    } else if i == 66 {
        reveal_strlit("cal_[15]");
        assert(METRIC_UNIT_ATOMS@[66]@ == "cal_[15]"@);
    } else if i == 67 {
        reveal_strlit("cal_[20]");
        assert(METRIC_UNIT_ATOMS@[67]@ == "cal_[20]"@);
    } else if i == 68 {
        reveal_strlit("cal_m");
        assert(METRIC_UNIT_ATOMS@[68]@ == "cal_m"@);
    } else if i == 69 {
        reveal_strlit("cal_IT");
        assert(METRIC_UNIT_ATOMS@[69]@ == "cal_IT"@);
    } else if i == 70 {
        reveal_strlit("cal_th");
        assert(METRIC_UNIT_ATOMS@[70]@ == "cal_th"@);
    } else {
        reveal_strlit("cal");
        assert(METRIC_UNIT_ATOMS@[71]@ == "cal"@);
    }
}

/// The entries 72 to 95 of the table are what `metric_shape` says.
proof fn lemma_metric_shape_3(i: int)
    requires
        72 <= i < 96,
    ensures
        metric_shape(METRIC_UNIT_ATOMS@[i]@),
{
    if i == 72 {
        reveal_strlit("tex");
        assert(METRIC_UNIT_ATOMS@[72]@ == "tex"@);
    } else if i == 73 {
        reveal_strlit("m[H2O]");
        assert(METRIC_UNIT_ATOMS@[73]@ == "m[H2O]"@);
    } else if i == 74 {
        reveal_strlit("m[Hg]");
        assert(METRIC_UNIT_ATOMS@[74]@ == "m[Hg]"@);
    } else if i == 75 {
        reveal_strlit("eq");
        assert(METRIC_UNIT_ATOMS@[75]@ == "eq"@);
    } else if i == 76 {
        reveal_strlit("osm");
        assert(METRIC_UNIT_ATOMS@[76]@ == "osm"@);
    } else if i == 77 {
        reveal_strlit("g%");
        assert(METRIC_UNIT_ATOMS@[77]@ == "g%"@);
    } else if i == 78 {
        reveal_strlit("kat");
        assert(METRIC_UNIT_ATOMS@[78]@ == "kat"@);
    } else if i == 79 {
        reveal_strlit("U");
        assert(METRIC_UNIT_ATOMS@[79]@ == "U"@);
    } else if i == 80 {
        reveal_strlit("[iU]");
        assert(METRIC_UNIT_ATOMS@[80]@ == "[iU]"@);
    } else if i == 81 {
        reveal_strlit("[IU]");
        assert(METRIC_UNIT_ATOMS@[81]@ == "[IU]"@);
    } else if i == 82 {
        reveal_strlit("Np");
        assert(METRIC_UNIT_ATOMS@[82]@ == "Np"@);
    } else if i == 83 {
        reveal_strlit("B");
        assert(METRIC_UNIT_ATOMS@[83]@ == "B"@);
    } else if i == 84 {
        reveal_strlit("B[SPL]");
        assert(METRIC_UNIT_ATOMS@[84]@ == "B[SPL]"@);
    } else if i == 85 {
        reveal_strlit("B[V]");
        assert(METRIC_UNIT_ATOMS@[85]@ == "B[V]"@);
    } else if i == 86 {
        reveal_strlit("B[mV]");
        assert(METRIC_UNIT_ATOMS@[86]@ == "B[mV]"@);
    } else if i == 87 {
        reveal_strlit("B[uV]");
        assert(METRIC_UNIT_ATOMS@[87]@ == "B[uV]"@);
    } else if i == 88 {
        reveal_strlit("B[10.nV]");
        assert(METRIC_UNIT_ATOMS@[88]@ == "B[10.nV]"@);
    } else if i == 89 {
        reveal_strlit("B[W]");
        assert(METRIC_UNIT_ATOMS@[89]@ == "B[W]"@);
    } else if i == 90 {
        reveal_strlit("B[kW]");
        assert(METRIC_UNIT_ATOMS@[90]@ == "B[kW]"@);
    } else if i == 91 {
        reveal_strlit("st");
        assert(METRIC_UNIT_ATOMS@[91]@ == "st"@);
    } else if i == 92 {
        reveal_strlit("mho");
        assert(METRIC_UNIT_ATOMS@[92]@ == "mho"@);
    } else if i == 93 {
        reveal_strlit("bit");
        assert(METRIC_UNIT_ATOMS@[93]@ == "bit"@);
    } else if i == 94 {
        reveal_strlit("By");
        assert(METRIC_UNIT_ATOMS@[94]@ == "By"@);
    } else {
        reveal_strlit("Bd");
        assert(METRIC_UNIT_ATOMS@[95]@ == "Bd"@);
    }
}

/// Every metric unit atom is what `metric_shape` says.
pub proof fn lemma_metric_shape(x: Seq<char>)
    requires
        is_metric_atom(x),
    ensures
        metric_shape(x),
{
    let i = choose|i: int| 0 <= i < METRIC_UNIT_ATOMS@.len() && #[trigger] METRIC_UNIT_ATOMS@[i]@ == x;
    if i < 24 {
        lemma_metric_shape_0(i);
    } else if i < 48 {
        lemma_metric_shape_1(i);
    } else if i < 72 {
        lemma_metric_shape_2(i);
    } else if i < 96 {
        lemma_metric_shape_3(i);
    }
}

/// Whether `x` is, character by character, one of the unit atoms that take no prefix.
pub open spec fn non_metric_shape(x: Seq<char>) -> bool {
    ||| (x.len() == 1 && x[0] == '\'')
    ||| (x.len() == 1 && x[0] == '"')
    ||| (x.len() == 3 && x[0] == '1' && x[1] == '0' && x[2] == '^')
    ||| (x.len() == 4 && x[0] == '[' && x[1] == 'p' && x[2] == 'i' && x[3] == ']')
    ||| (x.len() == 1 && x[0] == '%')
    ||| (x.len() == 6 && x[0] == '[' && x[1] == 'p' && x[2] == 'p' && x[3] == 't' && x[4] == 'h' && x[5] == ']')
    ||| (x.len() == 5 && x[0] == '[' && x[1] == 'p' && x[2] == 'p' && x[3] == 'm' && x[4] == ']')
    ||| (x.len() == 5 && x[0] == '[' && x[1] == 'p' && x[2] == 'p' && x[3] == 'b' && x[4] == ']')
    ||| (x.len() == 6 && x[0] == '[' && x[1] == 'p' && x[2] == 'p' && x[3] == 't' && x[4] == 'r' && x[5] == ']')
    ||| (x.len() == 3 && x[0] == 'g' && x[1] == 'o' && x[2] == 'n')
    ||| (x.len() == 3 && x[0] == 'd' && x[1] == 'e' && x[2] == 'g')
    ||| (x.len() == 3 && x[0] == 'm' && x[1] == 'i' && x[2] == 'n')
    ||| (x.len() == 1 && x[0] == 'h')
    ||| (x.len() == 1 && x[0] == 'd')
    ||| (x.len() == 3 && x[0] == 'a' && x[1] == '_' && x[2] == 't')
    ||| (x.len() == 3 && x[0] == 'a' && x[1] == '_' && x[2] == 'j')
    ||| (x.len() == 3 && x[0] == 'a' && x[1] == '_' && x[2] == 'g')
    ||| (x.len() == 1 && x[0] == 'a')
    ||| (x.len() == 2 && x[0] == 'w' && x[1] == 'k')
    ||| (x.len() == 4 && x[0] == 'm' && x[1] == 'o' && x[2] == '_' && x[3] == 's')
    ||| (x.len() == 4 && x[0] == 'm' && x[1] == 'o' && x[2] == '_' && x[3] == 'j')
    ||| (x.len() == 4 && x[0] == 'm' && x[1] == 'o' && x[2] == '_' && x[3] == 'g')
    ||| (x.len() == 2 && x[0] == 'm' && x[1] == 'o')
    ||| (x.len() == 2 && x[0] == 'A' && x[1] == 'U')
    ||| (x.len() == 3 && x[0] == 'a' && x[1] == 't' && x[2] == 'm')
    ||| (x.len() == 8 && x[0] == '[' && x[1] == 'l' && x[2] == 'b' && x[3] == 'f' && x[4] == '_' && x[5] == 'a' && x[6] == 'v' && x[7] == ']')
    ||| (x.len() == 6 && x[0] == '[' && x[1] == 'i' && x[2] == 'n' && x[3] == '_' && x[4] == 'i' && x[5] == ']')
    ||| (x.len() == 6 && x[0] == '[' && x[1] == 'f' && x[2] == 't' && x[3] == '_' && x[4] == 'i' && x[5] == ']')
    ||| (x.len() == 6 && x[0] == '[' && x[1] == 'y' && x[2] == 'd' && x[3] == '_' && x[4] == 'i' && x[5] == ']')
    ||| (x.len() == 6 && x[0] == '[' && x[1] == 'm' && x[2] == 'i' && x[3] == '_' && x[4] == 'i' && x[5] == ']')
    ||| (x.len() == 7 && x[0] == '[' && x[1] == 'f' && x[2] == 't' && x[3] == 'h' && x[4] == '_' && x[5] == 'i' && x[6] == ']')
    ||| (x.len() == 7 && x[0] == '[' && x[1] == 'n' && x[2] == 'm' && x[3] == 'i' && x[4] == '_' && x[5] == 'i' && x[6] == ']')
    ||| (x.len() == 6 && x[0] == '[' && x[1] == 'k' && x[2] == 'n' && x[3] == '_' && x[4] == 'i' && x[5] == ']')
    ||| (x.len() == 7 && x[0] == '[' && x[1] == 's' && x[2] == 'i' && x[3] == 'n' && x[4] == '_' && x[5] == 'i' && x[6] == ']')
    ||| (x.len() == 7 && x[0] == '[' && x[1] == 's' && x[2] == 'f' && x[3] == 't' && x[4] == '_' && x[5] == 'i' && x[6] == ']')
    ||| (x.len() == 7 && x[0] == '[' && x[1] == 's' && x[2] == 'y' && x[3] == 'd' && x[4] == '_' && x[5] == 'i' && x[6] == ']')
    ||| (x.len() == 7 && x[0] == '[' && x[1] == 'c' && x[2] == 'i' && x[3] == 'n' && x[4] == '_' && x[5] == 'i' && x[6] == ']')
    ||| (x.len() == 7 && x[0] == '[' && x[1] == 'c' && x[2] == 'f' && x[3] == 't' && x[4] == '_' && x[5] == 'i' && x[6] == ']')
    ||| (x.len() == 7 && x[0] == '[' && x[1] == 'c' && x[2] == 'y' && x[3] == 'd' && x[4] == '_' && x[5] == 'i' && x[6] == ']')
    ||| (x.len() == 6 && x[0] == '[' && x[1] == 'b' && x[2] == 'f' && x[3] == '_' && x[4] == 'i' && x[5] == ']')
    ||| (x.len() == 6 && x[0] == '[' && x[1] == 'c' && x[2] == 'r' && x[3] == '_' && x[4] == 'i' && x[5] == ']')
    ||| (x.len() == 7 && x[0] == '[' && x[1] == 'm' && x[2] == 'i' && x[3] == 'l' && x[4] == '_' && x[5] == 'i' && x[6] == ']')
    ||| (x.len() == 7 && x[0] == '[' && x[1] == 'c' && x[2] == 'm' && x[3] == 'l' && x[4] == '_' && x[5] == 'i' && x[6] == ']')
    ||| (x.len() == 6 && x[0] == '[' && x[1] == 'h' && x[2] == 'd' && x[3] == '_' && x[4] == 'i' && x[5] == ']')
    ||| (x.len() == 7 && x[0] == '[' && x[1] == 'f' && x[2] == 't' && x[3] == '_' && x[4] == 'u' && x[5] == 's' && x[6] == ']')
    ||| (x.len() == 7 && x[0] == '[' && x[1] == 'y' && x[2] == 'd' && x[3] == '_' && x[4] == 'u' && x[5] == 's' && x[6] == ']')
    ||| (x.len() == 7 && x[0] == '[' && x[1] == 'i' && x[2] == 'n' && x[3] == '_' && x[4] == 'u' && x[5] == 's' && x[6] == ']')
    ||| (x.len() == 7 && x[0] == '[' && x[1] == 'r' && x[2] == 'd' && x[3] == '_' && x[4] == 'u' && x[5] == 's' && x[6] == ']')
    ||| (x.len() == 7 && x[0] == '[' && x[1] == 'c' && x[2] == 'h' && x[3] == '_' && x[4] == 'u' && x[5] == 's' && x[6] == ']')
    ||| (x.len() == 7 && x[0] == '[' && x[1] == 'l' && x[2] == 'k' && x[3] == '_' && x[4] == 'u' && x[5] == 's' && x[6] == ']')
    ||| (x.len() == 8 && x[0] == '[' && x[1] == 'r' && x[2] == 'c' && x[3] == 'h' && x[4] == '_' && x[5] == 'u' && x[6] == 's' && x[7] == ']')
    ||| (x.len() == 8 && x[0] == '[' && x[1] == 'r' && x[2] == 'l' && x[3] == 'k' && x[4] == '_' && x[5] == 'u' && x[6] == 's' && x[7] == ']')
    ||| (x.len() == 8 && x[0] == '[' && x[1] == 'f' && x[2] == 't' && x[3] == 'h' && x[4] == '_' && x[5] == 'u' && x[6] == 's' && x[7] == ']')
    ||| (x.len() == 8 && x[0] == '[' && x[1] == 'f' && x[2] == 'u' && x[3] == 'r' && x[4] == '_' && x[5] == 'u' && x[6] == 's' && x[7] == ']')
    ||| (x.len() == 7 && x[0] == '[' && x[1] == 'm' && x[2] == 'i' && x[3] == '_' && x[4] == 'u' && x[5] == 's' && x[6] == ']')
    ||| (x.len() == 8 && x[0] == '[' && x[1] == 'a' && x[2] == 'c' && x[3] == 'r' && x[4] == '_' && x[5] == 'u' && x[6] == 's' && x[7] == ']')
    ||| (x.len() == 8 && x[0] == '[' && x[1] == 's' && x[2] == 'r' && x[3] == 'd' && x[4] == '_' && x[5] == 'u' && x[6] == 's' && x[7] == ']')
    ||| (x.len() == 8 && x[0] == '[' && x[1] == 's' && x[2] == 'm' && x[3] == 'i' && x[4] == '_' && x[5] == 'u' && x[6] == 's' && x[7] == ']')
    ||| (x.len() == 5 && x[0] == '[' && x[1] == 's' && x[2] == 'c' && x[3] == 't' && x[4] == ']')
    ||| (x.len() == 5 && x[0] == '[' && x[1] == 't' && x[2] == 'w' && x[3] == 'p' && x[4] == ']')
    ||| (x.len() == 8 && x[0] == '[' && x[1] == 'm' && x[2] == 'i' && x[3] == 'l' && x[4] == '_' && x[5] == 'u' && x[6] == 's' && x[7] == ']')
    ||| (x.len() == 7 && x[0] == '[' && x[1] == 'i' && x[2] == 'n' && x[3] == '_' && x[4] == 'b' && x[5] == 'r' && x[6] == ']')
    ||| (x.len() == 7 && x[0] == '[' && x[1] == 'f' && x[2] == 't' && x[3] == '_' && x[4] == 'b' && x[5] == 'r' && x[6] == ']')
    ||| (x.len() == 7 && x[0] == '[' && x[1] == 'r' && x[2] == 'd' && x[3] == '_' && x[4] == 'b' && x[5] == 'r' && x[6] == ']')
    ||| (x.len() == 7 && x[0] == '[' && x[1] == 'c' && x[2] == 'h' && x[3] == '_' && x[4] == 'b' && x[5] == 'r' && x[6] == ']')
    ||| (x.len() == 7 && x[0] == '[' && x[1] == 'l' && x[2] == 'k' && x[3] == '_' && x[4] == 'b' && x[5] == 'r' && x[6] == ']')
    ||| (x.len() == 8 && x[0] == '[' && x[1] == 'f' && x[2] == 't' && x[3] == 'h' && x[4] == '_' && x[5] == 'b' && x[6] == 'r' && x[7] == ']')
    ||| (x.len() == 7 && x[0] == '[' && x[1] == 'p' && x[2] == 'c' && x[3] == '_' && x[4] == 'b' && x[5] == 'r' && x[6] == ']')
    ||| (x.len() == 7 && x[0] == '[' && x[1] == 'y' && x[2] == 'd' && x[3] == '_' && x[4] == 'b' && x[5] == 'r' && x[6] == ']')
    ||| (x.len() == 7 && x[0] == '[' && x[1] == 'm' && x[2] == 'i' && x[3] == '_' && x[4] == 'b' && x[5] == 'r' && x[6] == ']')
    ||| (x.len() == 8 && x[0] == '[' && x[1] == 'n' && x[2] == 'm' && x[3] == 'i' && x[4] == '_' && x[5] == 'b' && x[6] == 'r' && x[7] == ']')
    ||| (x.len() == 7 && x[0] == '[' && x[1] == 'k' && x[2] == 'n' && x[3] == '_' && x[4] == 'b' && x[5] == 'r' && x[6] == ']')
    ||| (x.len() == 8 && x[0] == '[' && x[1] == 'a' && x[2] == 'c' && x[3] == 'r' && x[4] == '_' && x[5] == 'b' && x[6] == 'r' && x[7] == ']')
    ||| (x.len() == 8 && x[0] == '[' && x[1] == 'g' && x[2] == 'a' && x[3] == 'l' && x[4] == '_' && x[5] == 'u' && x[6] == 's' && x[7] == ']')
    ||| (x.len() == 8 && x[0] == '[' && x[1] == 'b' && x[2] == 'b' && x[3] == 'l' && x[4] == '_' && x[5] == 'u' && x[6] == 's' && x[7] == ']')
    ||| (x.len() == 7 && x[0] == '[' && x[1] == 'q' && x[2] == 't' && x[3] == '_' && x[4] == 'u' && x[5] == 's' && x[6] == ']')
    ||| (x.len() == 7 && x[0] == '[' && x[1] == 'p' && x[2] == 't' && x[3] == '_' && x[4] == 'u' && x[5] == 's' && x[6] == ']')
    ||| (x.len() == 8 && x[0] == '[' && x[1] == 'g' && x[2] == 'i' && x[3] == 'l' && x[4] == '_' && x[5] == 'u' && x[6] == 's' && x[7] == ']')
    ||| (x.len() == 8 && x[0] == '[' && x[1] == 'f' && x[2] == 'o' && x[3] == 'z' && x[4] == '_' && x[5] == 'u' && x[6] == 's' && x[7] == ']')
    ||| (x.len() == 8 && x[0] == '[' && x[1] == 'f' && x[2] == 'd' && x[3] == 'r' && x[4] == '_' && x[5] == 'u' && x[6] == 's' && x[7] == ']')
    ||| (x.len() == 8 && x[0] == '[' && x[1] == 'm' && x[2] == 'i' && x[3] == 'n' && x[4] == '_' && x[5] == 'u' && x[6] == 's' && x[7] == ']')
    ||| (x.len() == 8 && x[0] == '[' && x[1] == 'c' && x[2] == 'r' && x[3] == 'd' && x[4] == '_' && x[5] == 'u' && x[6] == 's' && x[7] == ']')
    ||| (x.len() == 7 && x[0] == '[' && x[1] == 'b' && x[2] == 'u' && x[3] == '_' && x[4] == 'u' && x[5] == 's' && x[6] == ']')
    ||| (x.len() == 8 && x[0] == '[' && x[1] == 'g' && x[2] == 'a' && x[3] == 'l' && x[4] == '_' && x[5] == 'w' && x[6] == 'i' && x[7] == ']')
    ||| (x.len() == 7 && x[0] == '[' && x[1] == 'p' && x[2] == 'k' && x[3] == '_' && x[4] == 'u' && x[5] == 's' && x[6] == ']')
    ||| (x.len() == 8 && x[0] == '[' && x[1] == 'd' && x[2] == 'q' && x[3] == 't' && x[4] == '_' && x[5] == 'u' && x[6] == 's' && x[7] == ']')
    ||| (x.len() == 8 && x[0] == '[' && x[1] == 'd' && x[2] == 'p' && x[3] == 't' && x[4] == '_' && x[5] == 'u' && x[6] == 's' && x[7] == ']')
    ||| (x.len() == 8 && x[0] == '[' && x[1] == 't' && x[2] == 'b' && x[3] == 's' && x[4] == '_' && x[5] == 'u' && x[6] == 's' && x[7] == ']')
    ||| (x.len() == 8 && x[0] == '[' && x[1] == 't' && x[2] == 's' && x[3] == 'p' && x[4] == '_' && x[5] == 'u' && x[6] == 's' && x[7] == ']')
    ||| (x.len() == 8 && x[0] == '[' && x[1] == 'c' && x[2] == 'u' && x[3] == 'p' && x[4] == '_' && x[5] == 'u' && x[6] == 's' && x[7] == ']')
    ||| (x.len() == 7 && x[0] == '[' && x[1] == 'f' && x[2] == 'o' && x[3] == 'z' && x[4] == '_' && x[5] == 'm' && x[6] == ']')
    ||| (x.len() == 7 && x[0] == '[' && x[1] == 'c' && x[2] == 'u' && x[3] == 'p' && x[4] == '_' && x[5] == 'm' && x[6] == ']')
    ||| (x.len() == 7 && x[0] == '[' && x[1] == 't' && x[2] == 's' && x[3] == 'p' && x[4] == '_' && x[5] == 'm' && x[6] == ']')
    ||| (x.len() == 7 && x[0] == '[' && x[1] == 't' && x[2] == 'b' && x[3] == 's' && x[4] == '_' && x[5] == 'm' && x[6] == ']')
    ||| (x.len() == 8 && x[0] == '[' && x[1] == 'g' && x[2] == 'a' && x[3] == 'l' && x[4] == '_' && x[5] == 'b' && x[6] == 'r' && x[7] == ']')
    ||| (x.len() == 7 && x[0] == '[' && x[1] == 'p' && x[2] == 'k' && x[3] == '_' && x[4] == 'b' && x[5] == 'r' && x[6] == ']')
    ||| (x.len() == 7 && x[0] == '[' && x[1] == 'b' && x[2] == 'u' && x[3] == '_' && x[4] == 'b' && x[5] == 'r' && x[6] == ']')
    ||| (x.len() == 7 && x[0] == '[' && x[1] == 'q' && x[2] == 't' && x[3] == '_' && x[4] == 'b' && x[5] == 'r' && x[6] == ']')
    ||| (x.len() == 7 && x[0] == '[' && x[1] == 'p' && x[2] == 't' && x[3] == '_' && x[4] == 'b' && x[5] == 'r' && x[6] == ']')
    ||| (x.len() == 8 && x[0] == '[' && x[1] == 'g' && x[2] == 'i' && x[3] == 'l' && x[4] == '_' && x[5] == 'b' && x[6] == 'r' && x[7] == ']')
    ||| (x.len() == 8 && x[0] == '[' && x[1] == 'f' && x[2] == 'o' && x[3] == 'z' && x[4] == '_' && x[5] == 'b' && x[6] == 'r' && x[7] == ']')
    ||| (x.len() == 8 && x[0] == '[' && x[1] == 'f' && x[2] == 'd' && x[3] == 'r' && x[4] == '_' && x[5] == 'b' && x[6] == 'r' && x[7] == ']')
    ||| (x.len() == 8 && x[0] == '[' && x[1] == 'm' && x[2] == 'i' && x[3] == 'n' && x[4] == '_' && x[5] == 'b' && x[6] == 'r' && x[7] == ']')
    ||| (x.len() == 4 && x[0] == '[' && x[1] == 'g' && x[2] == 'r' && x[3] == ']')
    ||| (x.len() == 7 && x[0] == '[' && x[1] == 'l' && x[2] == 'b' && x[3] == '_' && x[4] == 'a' && x[5] == 'v' && x[6] == ']')
    ||| (x.len() == 7 && x[0] == '[' && x[1] == 'o' && x[2] == 'z' && x[3] == '_' && x[4] == 'a' && x[5] == 'v' && x[6] == ']')
    ||| (x.len() == 7 && x[0] == '[' && x[1] == 'd' && x[2] == 'r' && x[3] == '_' && x[4] == 'a' && x[5] == 'v' && x[6] == ']')
    ||| (x.len() == 9 && x[0] == '[' && x[1] == 's' && x[2] == 'c' && x[3] == 'w' && x[4] == 't' && x[5] == '_' && x[6] == 'a' && x[7] == 'v' && x[8] == ']')
    ||| (x.len() == 9 && x[0] == '[' && x[1] == 'l' && x[2] == 'c' && x[3] == 'w' && x[4] == 't' && x[5] == '_' && x[6] == 'a' && x[7] == 'v' && x[8] == ']')
    ||| (x.len() == 9 && x[0] == '[' && x[1] == 's' && x[2] == 't' && x[3] == 'o' && x[4] == 'n' && x[5] == '_' && x[6] == 'a' && x[7] == 'v' && x[8] == ']')
    ||| (x.len() == 9 && x[0] == '[' && x[1] == 'l' && x[2] == 't' && x[3] == 'o' && x[4] == 'n' && x[5] == '_' && x[6] == 'a' && x[7] == 'v' && x[8] == ']')
    ||| (x.len() == 10 && x[0] == '[' && x[1] == 's' && x[2] == 't' && x[3] == 'o' && x[4] == 'n' && x[5] == 'e' && x[6] == '_' && x[7] == 'a' && x[8] == 'v' && x[9] == ']')
    ||| (x.len() == 8 && x[0] == '[' && x[1] == 'p' && x[2] == 'w' && x[3] == 't' && x[4] == '_' && x[5] == 't' && x[6] == 'r' && x[7] == ']')
    ||| (x.len() == 7 && x[0] == '[' && x[1] == 'o' && x[2] == 'z' && x[3] == '_' && x[4] == 't' && x[5] == 'r' && x[6] == ']')
    ||| (x.len() == 7 && x[0] == '[' && x[1] == 'l' && x[2] == 'b' && x[3] == '_' && x[4] == 't' && x[5] == 'r' && x[6] == ']')
    ||| (x.len() == 7 && x[0] == '[' && x[1] == 's' && x[2] == 'c' && x[3] == '_' && x[4] == 'a' && x[5] == 'p' && x[6] == ']')
    ||| (x.len() == 7 && x[0] == '[' && x[1] == 'd' && x[2] == 'r' && x[3] == '_' && x[4] == 'a' && x[5] == 'p' && x[6] == ']')
    ||| (x.len() == 7 && x[0] == '[' && x[1] == 'o' && x[2] == 'z' && x[3] == '_' && x[4] == 'a' && x[5] == 'p' && x[6] == ']')
    ||| (x.len() == 7 && x[0] == '[' && x[1] == 'l' && x[2] == 'b' && x[3] == '_' && x[4] == 'a' && x[5] == 'p' && x[6] == ']')
    ||| (x.len() == 6 && x[0] == '[' && x[1] == 'o' && x[2] == 'z' && x[3] == '_' && x[4] == 'm' && x[5] == ']')
    ||| (x.len() == 5 && x[0] == '[' && x[1] == 'l' && x[2] == 'n' && x[3] == 'e' && x[4] == ']')
    ||| (x.len() == 5 && x[0] == '[' && x[1] == 'p' && x[2] == 'n' && x[3] == 't' && x[4] == ']')
    ||| (x.len() == 5 && x[0] == '[' && x[1] == 'p' && x[2] == 'c' && x[3] == 'a' && x[4] == ']')
    ||| (x.len() == 8 && x[0] == '[' && x[1] == 'p' && x[2] == 'n' && x[3] == 't' && x[4] == '_' && x[5] == 'p' && x[6] == 'r' && x[7] == ']')
    ||| (x.len() == 8 && x[0] == '[' && x[1] == 'p' && x[2] == 'c' && x[3] == 'a' && x[4] == '_' && x[5] == 'p' && x[6] == 'r' && x[7] == ']')
    ||| (x.len() == 6 && x[0] == '[' && x[1] == 'p' && x[2] == 'i' && x[3] == 'e' && x[4] == 'd' && x[5] == ']')
    ||| (x.len() == 7 && x[0] == '[' && x[1] == 'p' && x[2] == 'o' && x[3] == 'u' && x[4] == 'c' && x[5] == 'e' && x[6] == ']')
    ||| (x.len() == 7 && x[0] == '[' && x[1] == 'l' && x[2] == 'i' && x[3] == 'g' && x[4] == 'n' && x[5] == 'e' && x[6] == ']')
    ||| (x.len() == 7 && x[0] == '[' && x[1] == 'd' && x[2] == 'i' && x[3] == 'd' && x[4] == 'o' && x[5] == 't' && x[6] == ']')
    ||| (x.len() == 8 && x[0] == '[' && x[1] == 'c' && x[2] == 'i' && x[3] == 'c' && x[4] == 'e' && x[5] == 'r' && x[6] == 'o' && x[7] == ']')
    ||| (x.len() == 6 && x[0] == '[' && x[1] == 'd' && x[2] == 'e' && x[3] == 'g' && x[4] == 'F' && x[5] == ']')
    ||| (x.len() == 6 && x[0] == '[' && x[1] == 'd' && x[2] == 'e' && x[3] == 'g' && x[4] == 'R' && x[5] == ']')
    ||| (x.len() == 7 && x[0] == '[' && x[1] == 'd' && x[2] == 'e' && x[3] == 'g' && x[4] == 'R' && x[5] == 'e' && x[6] == ']')
    ||| (x.len() == 5 && x[0] == '[' && x[1] == 'C' && x[2] == 'a' && x[3] == 'l' && x[4] == ']')
    ||| (x.len() == 8 && x[0] == '[' && x[1] == 'B' && x[2] == 't' && x[3] == 'u' && x[4] == '_' && x[5] == '3' && x[6] == '9' && x[7] == ']')
    ||| (x.len() == 8 && x[0] == '[' && x[1] == 'B' && x[2] == 't' && x[3] == 'u' && x[4] == '_' && x[5] == '5' && x[6] == '9' && x[7] == ']')
    ||| (x.len() == 8 && x[0] == '[' && x[1] == 'B' && x[2] == 't' && x[3] == 'u' && x[4] == '_' && x[5] == '6' && x[6] == '0' && x[7] == ']')
    ||| (x.len() == 7 && x[0] == '[' && x[1] == 'B' && x[2] == 't' && x[3] == 'u' && x[4] == '_' && x[5] == 'm' && x[6] == ']')
    ||| (x.len() == 8 && x[0] == '[' && x[1] == 'B' && x[2] == 't' && x[3] == 'u' && x[4] == '_' && x[5] == 'I' && x[6] == 'T' && x[7] == ']')
    ||| (x.len() == 8 && x[0] == '[' && x[1] == 'B' && x[2] == 't' && x[3] == 'u' && x[4] == '_' && x[5] == 't' && x[6] == 'h' && x[7] == ']')
    ||| (x.len() == 5 && x[0] == '[' && x[1] == 'B' && x[2] == 't' && x[3] == 'u' && x[4] == ']')
    ||| (x.len() == 4 && x[0] == '[' && x[1] == 'H' && x[2] == 'P' && x[3] == ']')
    ||| (x.len() == 5 && x[0] == '[' && x[1] == 'd' && x[2] == 'e' && x[3] == 'n' && x[4] == ']')
    ||| (x.len() == 10 && x[0] == '[' && x[1] == 'i' && x[2] == 'n' && x[3] == '_' && x[4] == 'i' && x[5] == '\'' && x[6] == 'H' && x[7] == '2' && x[8] == 'O' && x[9] == ']')
    ||| (x.len() == 9 && x[0] == '[' && x[1] == 'i' && x[2] == 'n' && x[3] == '_' && x[4] == 'i' && x[5] == '\'' && x[6] == 'H' && x[7] == 'g' && x[8] == ']')
    ||| (x.len() == 5 && x[0] == '[' && x[1] == 'P' && x[2] == 'R' && x[3] == 'U' && x[4] == ']')
    ||| (x.len() == 8 && x[0] == '[' && x[1] == 'w' && x[2] == 'o' && x[3] == 'o' && x[4] == 'd' && x[5] == '\'' && x[6] == 'U' && x[7] == ']')
    ||| (x.len() == 6 && x[0] == '[' && x[1] == 'd' && x[2] == 'i' && x[3] == 'o' && x[4] == 'p' && x[5] == ']')
    ||| (x.len() == 8 && x[0] == '[' && x[1] == 'p' && x[2] == '\'' && x[3] == 'd' && x[4] == 'i' && x[5] == 'o' && x[6] == 'p' && x[7] == ']')
    ||| (x.len() == 8 && x[0] == '%' && x[1] == '[' && x[2] == 's' && x[3] == 'l' && x[4] == 'o' && x[5] == 'p' && x[6] == 'e' && x[7] == ']')
    ||| (x.len() == 8 && x[0] == '[' && x[1] == 'm' && x[2] == 'e' && x[3] == 's' && x[4] == 'h' && x[5] == '_' && x[6] == 'i' && x[7] == ']')
    ||| (x.len() == 4 && x[0] == '[' && x[1] == 'C' && x[2] == 'h' && x[3] == ']')
    ||| (x.len() == 5 && x[0] == '[' && x[1] == 'd' && x[2] == 'r' && x[3] == 'p' && x[4] == ']')
    ||| (x.len() == 8 && x[0] == '[' && x[1] == 'h' && x[2] == 'n' && x[3] == 's' && x[4] == 'f' && x[5] == '\'' && x[6] == 'U' && x[7] == ']')
    ||| (x.len() == 5 && x[0] == '[' && x[1] == 'M' && x[2] == 'E' && x[3] == 'T' && x[4] == ']')
    ||| (x.len() == 7 && x[0] == '[' && x[1] == 'h' && x[2] == 'p' && x[3] == '\'' && x[4] == '_' && x[5] == 'X' && x[6] == ']')
    ||| (x.len() == 7 && x[0] == '[' && x[1] == 'h' && x[2] == 'p' && x[3] == '\'' && x[4] == '_' && x[5] == 'C' && x[6] == ']')
    ||| (x.len() == 7 && x[0] == '[' && x[1] == 'h' && x[2] == 'p' && x[3] == '\'' && x[4] == '_' && x[5] == 'M' && x[6] == ']')
    ||| (x.len() == 7 && x[0] == '[' && x[1] == 'h' && x[2] == 'p' && x[3] == '\'' && x[4] == '_' && x[5] == 'Q' && x[6] == ']')
    ||| (x.len() == 6 && x[0] == '[' && x[1] == 'h' && x[2] == 'p' && x[3] == '_' && x[4] == 'X' && x[5] == ']')
    ||| (x.len() == 6 && x[0] == '[' && x[1] == 'h' && x[2] == 'p' && x[3] == '_' && x[4] == 'C' && x[5] == ']')
    ||| (x.len() == 6 && x[0] == '[' && x[1] == 'h' && x[2] == 'p' && x[3] == '_' && x[4] == 'M' && x[5] == ']')
    ||| (x.len() == 6 && x[0] == '[' && x[1] == 'h' && x[2] == 'p' && x[3] == '_' && x[4] == 'Q' && x[5] == ']')
    ||| (x.len() == 6 && x[0] == '[' && x[1] == 'k' && x[2] == 'p' && x[3] == '_' && x[4] == 'X' && x[5] == ']')
    ||| (x.len() == 6 && x[0] == '[' && x[1] == 'k' && x[2] == 'p' && x[3] == '_' && x[4] == 'C' && x[5] == ']')
    ||| (x.len() == 6 && x[0] == '[' && x[1] == 'k' && x[2] == 'p' && x[3] == '_' && x[4] == 'M' && x[5] == ']')
    ||| (x.len() == 6 && x[0] == '[' && x[1] == 'k' && x[2] == 'p' && x[3] == '_' && x[4] == 'Q' && x[5] == ']')
    ||| (x.len() == 4 && x[0] == '[' && x[1] == 'p' && x[2] == 'H' && x[3] == ']')
    ||| (x.len() == 3 && x[0] == '[' && x[1] == 'S' && x[2] == ']')
    ||| (x.len() == 5 && x[0] == '[' && x[1] == 'H' && x[2] == 'P' && x[3] == 'F' && x[4] == ']')
    ||| (x.len() == 5 && x[0] == '[' && x[1] == 'L' && x[2] == 'P' && x[3] == 'F' && x[4] == ']')
    ||| (x.len() == 7 && x[0] == '[' && x[1] == 'a' && x[2] == 'r' && x[3] == 'b' && x[4] == '\'' && x[5] == 'U' && x[6] == ']')
    ||| (x.len() == 7 && x[0] == '[' && x[1] == 'U' && x[2] == 'S' && x[3] == 'P' && x[4] == '\'' && x[5] == 'U' && x[6] == ']')
    ||| (x.len() == 7 && x[0] == '[' && x[1] == 'G' && x[2] == 'P' && x[3] == 'L' && x[4] == '\'' && x[5] == 'U' && x[6] == ']')
    ||| (x.len() == 7 && x[0] == '[' && x[1] == 'M' && x[2] == 'P' && x[3] == 'L' && x[4] == '\'' && x[5] == 'U' && x[6] == ']')
    ||| (x.len() == 7 && x[0] == '[' && x[1] == 'A' && x[2] == 'P' && x[3] == 'L' && x[4] == '\'' && x[5] == 'U' && x[6] == ']')
    ||| (x.len() == 8 && x[0] == '[' && x[1] == 'b' && x[2] == 'e' && x[3] == 't' && x[4] == 'h' && x[5] == '\'' && x[6] == 'U' && x[7] == ']')
    ||| (x.len() == 11 && x[0] == '[' && x[1] == 'a' && x[2] == 'n' && x[3] == 't' && x[4] == 'i' && x[5] == '\'' && x[6] == 'X' && x[7] == 'a' && x[8] == '\'' && x[9] == 'U' && x[10] == ']')
    ||| (x.len() == 8 && x[0] == '[' && x[1] == 't' && x[2] == 'o' && x[3] == 'd' && x[4] == 'd' && x[5] == '\'' && x[6] == 'U' && x[7] == ']')
    ||| (x.len() == 7 && x[0] == '[' && x[1] == 'd' && x[2] == 'y' && x[3] == 'e' && x[4] == '\'' && x[5] == 'U' && x[6] == ']')
    ||| (x.len() == 8 && x[0] == '[' && x[1] == 's' && x[2] == 'm' && x[3] == 'g' && x[4] == 'y' && x[5] == '\'' && x[6] == 'U' && x[7] == ']')
    ||| (x.len() == 8 && x[0] == '[' && x[1] == 'b' && x[2] == 'd' && x[3] == 's' && x[4] == 'k' && x[5] == '\'' && x[6] == 'U' && x[7] == ']')
    ||| (x.len() == 6 && x[0] == '[' && x[1] == 'k' && x[2] == 'a' && x[3] == '\'' && x[4] == 'U' && x[5] == ']')
    ||| (x.len() == 7 && x[0] == '[' && x[1] == 'k' && x[2] == 'n' && x[3] == 'k' && x[4] == '\'' && x[5] == 'U' && x[6] == ']')
    ||| (x.len() == 8 && x[0] == '[' && x[1] == 'm' && x[2] == 'c' && x[3] == 'l' && x[4] == 'g' && x[5] == '\'' && x[6] == 'U' && x[7] == ']')
    ||| (x.len() == 6 && x[0] == '[' && x[1] == 't' && x[2] == 'b' && x[3] == '\'' && x[4] == 'U' && x[5] == ']')
    ||| (x.len() == 9 && x[0] == '[' && x[1] == 'C' && x[2] == 'C' && x[3] == 'I' && x[4] == 'D' && x[5] == '_' && x[6] == '5' && x[7] == '0' && x[8] == ']')
    ||| (x.len() == 9 && x[0] == '[' && x[1] == 'T' && x[2] == 'C' && x[3] == 'I' && x[4] == 'D' && x[5] == '_' && x[6] == '5' && x[7] == '0' && x[8] == ']')
    ||| (x.len() == 8 && x[0] == '[' && x[1] == 'E' && x[2] == 'I' && x[3] == 'D' && x[4] == '_' && x[5] == '5' && x[6] == '0' && x[7] == ']')
    ||| (x.len() == 5 && x[0] == '[' && x[1] == 'P' && x[2] == 'F' && x[3] == 'U' && x[4] == ']')
    ||| (x.len() == 5 && x[0] == '[' && x[1] == 'F' && x[2] == 'F' && x[3] == 'U' && x[4] == ']')
    ||| (x.len() == 5 && x[0] == '[' && x[1] == 'C' && x[2] == 'F' && x[3] == 'U' && x[4] == ']')
    ||| (x.len() == 4 && x[0] == '[' && x[1] == 'I' && x[2] == 'R' && x[3] == ']')
    ||| (x.len() == 5 && x[0] == '[' && x[1] == 'B' && x[2] == 'A' && x[3] == 'U' && x[4] == ']')
    ||| (x.len() == 4 && x[0] == '[' && x[1] == 'A' && x[2] == 'U' && x[3] == ']')
    ||| (x.len() == 11 && x[0] == '[' && x[1] == 'A' && x[2] == 'm' && x[3] == 'b' && x[4] == '\'' && x[5] == 'a' && x[6] == '\'' && x[7] == '1' && x[8] == '\'' && x[9] == 'U' && x[10] == ']')
    ||| (x.len() == 5 && x[0] == '[' && x[1] == 'P' && x[2] == 'N' && x[3] == 'U' && x[4] == ']')
    ||| (x.len() == 4 && x[0] == '[' && x[1] == 'L' && x[2] == 'f' && x[3] == ']')
    ||| (x.len() == 8 && x[0] == '[' && x[1] == 'D' && x[2] == '\'' && x[3] == 'a' && x[4] == 'g' && x[5] == '\'' && x[6] == 'U' && x[7] == ']')
    ||| (x.len() == 5 && x[0] == '[' && x[1] == 'F' && x[2] == 'E' && x[3] == 'U' && x[4] == ']')
    ||| (x.len() == 5 && x[0] == '[' && x[1] == 'E' && x[2] == 'L' && x[3] == 'U' && x[4] == ']')
    ||| (x.len() == 4 && x[0] == '[' && x[1] == 'E' && x[2] == 'U' && x[3] == ']')
    ||| (x.len() == 2 && x[0] == 'A' && x[1] == 'o')
    ||| (x.len() == 1 && x[0] == 'b')
    ||| (x.len() == 3 && x[0] == 'a' && x[1] == 't' && x[2] == 't')
    ||| (x.len() == 5 && x[0] == '[' && x[1] == 'p' && x[2] == 's' && x[3] == 'i' && x[4] == ']')
    ||| (x.len() == 4 && x[0] == 'c' && x[1] == 'i' && x[2] == 'r' && x[3] == 'c')
    ||| (x.len() == 3 && x[0] == 's' && x[1] == 'p' && x[2] == 'h')
    ||| (x.len() == 7 && x[0] == '[' && x[1] == 'c' && x[2] == 'a' && x[3] == 'r' && x[4] == '_' && x[5] == 'm' && x[6] == ']')
    ||| (x.len() == 8 && x[0] == '[' && x[1] == 'c' && x[2] == 'a' && x[3] == 'r' && x[4] == '_' && x[5] == 'A' && x[6] == 'u' && x[7] == ']')
    ||| (x.len() == 7 && x[0] == '[' && x[1] == 's' && x[2] == 'm' && x[3] == 'o' && x[4] == 'o' && x[5] == 't' && x[6] == ']')
    ||| (x.len() == 15 && x[0] == '[' && x[1] == 'm' && x[2] == '/' && x[3] == 's' && x[4] == '2' && x[5] == '/' && x[6] == 'H' && x[7] == 'z' && x[8] == '^' && x[9] == '(' && x[10] == '1' && x[11] == '/' && x[12] == '2' && x[13] == ')' && x[14] == ']')
    ||| (x.len() == 5 && x[0] == 'b' && x[1] == 'i' && x[2] == 't' && x[3] == '_' && x[4] == 's')
    ||| (x.len() == 5 && x[0] == '{' && x[1] == 't' && x[2] == 'o' && x[3] == 't' && x[4] == '}')
    ||| (x.len() == 5 && x[0] == '{' && x[1] == 't' && x[2] == 'b' && x[3] == 'l' && x[4] == '}')
    ||| (x.len() == 5 && x[0] == '{' && x[1] == 'r' && x[2] == 'b' && x[3] == 'c' && x[4] == '}')
    ||| (x.len() == 10 && x[0] == 'g' && x[1] == '.' && x[2] == 'm' && x[3] == '/' && x[4] == '{' && x[5] == 'H' && x[6] == '.' && x[7] == 'B' && x[8] == '.' && x[9] == '}')
    ||| (x.len() == 11 && x[0] == 'g' && x[1] == 'f' && x[2] == '.' && x[3] == 'm' && x[4] == '/' && x[5] == '{' && x[6] == 'H' && x[7] == '.' && x[8] == 'B' && x[9] == '.' && x[10] == '}')
    ||| (x.len() == 11 && x[0] == 'k' && x[1] == 'g' && x[2] == '{' && x[3] == 'w' && x[4] == 'e' && x[5] == 't' && x[6] == '\'' && x[7] == 't' && x[8] == 'i' && x[9] == 's' && x[10] == '}')
    ||| (x.len() == 9 && x[0] == 'm' && x[1] == 'g' && x[2] == '{' && x[3] == 'c' && x[4] == 'r' && x[5] == 'e' && x[6] == 'a' && x[7] == 't' && x[8] == '}')
}

/// The entries 0 to 23 of the table are what `non_metric_shape` says.
proof fn lemma_non_metric_shape_0(i: int)
    requires
        0 <= i < 24,
    ensures
        non_metric_shape(NON_METRIC_UNIT_ATOMS@[i]@),
{
    if i == 0 {
        reveal_strlit("'");
        assert(NON_METRIC_UNIT_ATOMS@[0]@ == "'"@);
    } else if i == 1 {
        reveal_strlit("\"");
        assert(NON_METRIC_UNIT_ATOMS@[1]@ == "\""@);
    } else if i == 2 {
        reveal_strlit("10^");
        assert(NON_METRIC_UNIT_ATOMS@[2]@ == "10^"@);
    } else if i == 3 {
        reveal_strlit("[pi]");
        assert(NON_METRIC_UNIT_ATOMS@[3]@ == "[pi]"@);
    } else if i == 4 {
        reveal_strlit("%");
        assert(NON_METRIC_UNIT_ATOMS@[4]@ == "%"@);
    } else if i == 5 {
        reveal_strlit("[ppth]");
        assert(NON_METRIC_UNIT_ATOMS@[5]@ == "[ppth]"@);
    } else if i == 6 {
        reveal_strlit("[ppm]");
        assert(NON_METRIC_UNIT_ATOMS@[6]@ == "[ppm]"@);
    } else if i == 7 {
        reveal_strlit("[ppb]");
        assert(NON_METRIC_UNIT_ATOMS@[7]@ == "[ppb]"@);
    } else if i == 8 {
        reveal_strlit("[pptr]");
        assert(NON_METRIC_UNIT_ATOMS@[8]@ == "[pptr]"@);
    } else if i == 9 {
        reveal_strlit("gon");
        assert(NON_METRIC_UNIT_ATOMS@[9]@ == "gon"@);
    } else if i == 10 {
        reveal_strlit("deg");
        assert(NON_METRIC_UNIT_ATOMS@[10]@ == "deg"@);
    } else if i == 11 {
        reveal_strlit("'");
        assert(NON_METRIC_UNIT_ATOMS@[11]@ == "'"@);
    } else if i == 12 {
        reveal_strlit("min");
        assert(NON_METRIC_UNIT_ATOMS@[12]@ == "min"@);
    } else if i == 13 {
        reveal_strlit("h");
        assert(NON_METRIC_UNIT_ATOMS@[13]@ == "h"@);
    } else if i == 14 {
        reveal_strlit("d");
        assert(NON_METRIC_UNIT_ATOMS@[14]@ == "d"@);
    } else if i == 15 {
        reveal_strlit("a_t");
        assert(NON_METRIC_UNIT_ATOMS@[15]@ == "a_t"@);
    } else if i == 16 {
        reveal_strlit("a_j");
        assert(NON_METRIC_UNIT_ATOMS@[16]@ == "a_j"@);
    } else if i == 17 {
        reveal_strlit("a_g");
        assert(NON_METRIC_UNIT_ATOMS@[17]@ == "a_g"@);
    } else if i == 18 {
        reveal_strlit("a");
        assert(NON_METRIC_UNIT_ATOMS@[18]@ == "a"@);
    } else if i == 19 {
        reveal_strlit("wk");
        assert(NON_METRIC_UNIT_ATOMS@[19]@ == "wk"@);
    } else if i == 20 {
        reveal_strlit("mo_s");
        assert(NON_METRIC_UNIT_ATOMS@[20]@ == "mo_s"@);
    } else if i == 21 {
        reveal_strlit("mo_j");
        assert(NON_METRIC_UNIT_ATOMS@[21]@ == "mo_j"@);
    } else if i == 22 {
        reveal_strlit("mo_g");
        assert(NON_METRIC_UNIT_ATOMS@[22]@ == "mo_g"@);
    } else {
        reveal_strlit("mo");
        assert(NON_METRIC_UNIT_ATOMS@[23]@ == "mo"@);
    }
}

/// The entries 24 to 47 of the table are what `non_metric_shape` says.
proof fn lemma_non_metric_shape_1(i: int)
    requires
        24 <= i < 48,
    ensures
        non_metric_shape(NON_METRIC_UNIT_ATOMS@[i]@),
{
    if i == 24 {
        reveal_strlit("AU");
        assert(NON_METRIC_UNIT_ATOMS@[24]@ == "AU"@);
    } else if i == 25 {
        reveal_strlit("atm");
        assert(NON_METRIC_UNIT_ATOMS@[25]@ == "atm"@);
    } else if i == 26 {
        reveal_strlit("[lbf_av]");
        assert(NON_METRIC_UNIT_ATOMS@[26]@ == "[lbf_av]"@);
    } else if i == 27 {
        reveal_strlit("[in_i]");
        assert(NON_METRIC_UNIT_ATOMS@[27]@ == "[in_i]"@);
    } else if i == 28 {
        reveal_strlit("[ft_i]");
        assert(NON_METRIC_UNIT_ATOMS@[28]@ == "[ft_i]"@);
    } else if i == 29 {
        reveal_strlit("[yd_i]");
        assert(NON_METRIC_UNIT_ATOMS@[29]@ == "[yd_i]"@);
    } else if i == 30 {
        reveal_strlit("[mi_i]");
        assert(NON_METRIC_UNIT_ATOMS@[30]@ == "[mi_i]"@);
    } else if i == 31 {
        reveal_strlit("[fth_i]");
        assert(NON_METRIC_UNIT_ATOMS@[31]@ == "[fth_i]"@);
    } else if i == 32 {
        reveal_strlit("[nmi_i]");
        assert(NON_METRIC_UNIT_ATOMS@[32]@ == "[nmi_i]"@);
    } else if i == 33 {
        reveal_strlit("[kn_i]");
        assert(NON_METRIC_UNIT_ATOMS@[33]@ == "[kn_i]"@);
    } else if i == 34 {
        reveal_strlit("[sin_i]");
        assert(NON_METRIC_UNIT_ATOMS@[34]@ == "[sin_i]"@);
    } else if i == 35 {
        reveal_strlit("[sft_i]");
        assert(NON_METRIC_UNIT_ATOMS@[35]@ == "[sft_i]"@);
    } else if i == 36 {
        reveal_strlit("[syd_i]");
        assert(NON_METRIC_UNIT_ATOMS@[36]@ == "[syd_i]"@);
    } else if i == 37 {
        reveal_strlit("[cin_i]");
        assert(NON_METRIC_UNIT_ATOMS@[37]@ == "[cin_i]"@);
    } else if i == 38 {
        reveal_strlit("[cft_i]");
        assert(NON_METRIC_UNIT_ATOMS@[38]@ == "[cft_i]"@);
    } else if i == 39 {
        reveal_strlit("[cyd_i]");
        assert(NON_METRIC_UNIT_ATOMS@[39]@ == "[cyd_i]"@);
    } else if i == 40 {
        reveal_strlit("[bf_i]");
        assert(NON_METRIC_UNIT_ATOMS@[40]@ == "[bf_i]"@);
    } else if i == 41 {
        reveal_strlit("[cr_i]");
        assert(NON_METRIC_UNIT_ATOMS@[41]@ == "[cr_i]"@);
    } else if i == 42 {
        reveal_strlit("[mil_i]");
        assert(NON_METRIC_UNIT_ATOMS@[42]@ == "[mil_i]"@);
    } else if i == 43 {
        reveal_strlit("[cml_i]");
        assert(NON_METRIC_UNIT_ATOMS@[43]@ == "[cml_i]"@);
    } else if i == 44 {
        reveal_strlit("[hd_i]");
        assert(NON_METRIC_UNIT_ATOMS@[44]@ == "[hd_i]"@);
    } else if i == 45 {
        reveal_strlit("[ft_us]");
        assert(NON_METRIC_UNIT_ATOMS@[45]@ == "[ft_us]"@);
    } else if i == 46 {
        reveal_strlit("[yd_us]");
        assert(NON_METRIC_UNIT_ATOMS@[46]@ == "[yd_us]"@);
    } else {
        reveal_strlit("[in_us]");
        assert(NON_METRIC_UNIT_ATOMS@[47]@ == "[in_us]"@);
    }
}

/// The entries 48 to 71 of the table are what `non_metric_shape` says.
proof fn lemma_non_metric_shape_2(i: int)
    requires
        48 <= i < 72,
    ensures
        non_metric_shape(NON_METRIC_UNIT_ATOMS@[i]@),
{
    if i == 48 {
        reveal_strlit("[rd_us]");
        assert(NON_METRIC_UNIT_ATOMS@[48]@ == "[rd_us]"@);
    } else if i == 49 {
        reveal_strlit("[ch_us]");
        assert(NON_METRIC_UNIT_ATOMS@[49]@ == "[ch_us]"@);
    } else if i == 50 {
        reveal_strlit("[lk_us]");
        assert(NON_METRIC_UNIT_ATOMS@[50]@ == "[lk_us]"@);
    } else if i == 51 {
        reveal_strlit("[rch_us]");
        assert(NON_METRIC_UNIT_ATOMS@[51]@ == "[rch_us]"@);
    } else if i == 52 {
        reveal_strlit("[rlk_us]");
        assert(NON_METRIC_UNIT_ATOMS@[52]@ == "[rlk_us]"@);
    } else if i == 53 {
        reveal_strlit("[fth_us]");
        assert(NON_METRIC_UNIT_ATOMS@[53]@ == "[fth_us]"@);
    } else if i == 54 {
        reveal_strlit("[fur_us]");
        assert(NON_METRIC_UNIT_ATOMS@[54]@ == "[fur_us]"@);
    } else if i == 55 {
        reveal_strlit("[mi_us]");
        assert(NON_METRIC_UNIT_ATOMS@[55]@ == "[mi_us]"@);
    } else if i == 56 {
        reveal_strlit("[acr_us]");
        assert(NON_METRIC_UNIT_ATOMS@[56]@ == "[acr_us]"@);
    } else if i == 57 {
        reveal_strlit("[srd_us]");
        assert(NON_METRIC_UNIT_ATOMS@[57]@ == "[srd_us]"@);
    } else if i == 58 {
        reveal_strlit("[smi_us]");
        assert(NON_METRIC_UNIT_ATOMS@[58]@ == "[smi_us]"@);
    } else if i == 59 {
        reveal_strlit("[sct]");
        assert(NON_METRIC_UNIT_ATOMS@[59]@ == "[sct]"@);
    } else if i == 60 {
        reveal_strlit("[twp]");
        assert(NON_METRIC_UNIT_ATOMS@[60]@ == "[twp]"@);
    } else if i == 61 {
        reveal_strlit("[mil_us]");
        assert(NON_METRIC_UNIT_ATOMS@[61]@ == "[mil_us]"@);
    } else if i == 62 {
        reveal_strlit("[in_br]");
        assert(NON_METRIC_UNIT_ATOMS@[62]@ == "[in_br]"@);
    } else if i == 63 {
        reveal_strlit("[ft_br]");
        assert(NON_METRIC_UNIT_ATOMS@[63]@ == "[ft_br]"@);
    } else if i == 64 {
        reveal_strlit("[rd_br]");
        assert(NON_METRIC_UNIT_ATOMS@[64]@ == "[rd_br]"@);
    } else if i == 65 {
        reveal_strlit("[ch_br]");
        assert(NON_METRIC_UNIT_ATOMS@[65]@ == "[ch_br]"@);
    } else if i == 66 {
        reveal_strlit("[lk_br]");
        assert(NON_METRIC_UNIT_ATOMS@[66]@ == "[lk_br]"@);
    } else if i == 67 {
        reveal_strlit("[fth_br]");
        assert(NON_METRIC_UNIT_ATOMS@[67]@ == "[fth_br]"@);
    } else if i == 68 {
        reveal_strlit("[pc_br]");
        assert(NON_METRIC_UNIT_ATOMS@[68]@ == "[pc_br]"@);
    } else if i == 69 {
        reveal_strlit("[yd_br]");
        assert(NON_METRIC_UNIT_ATOMS@[69]@ == "[yd_br]"@);
    } else if i == 70 {
        reveal_strlit("[mi_br]");
        assert(NON_METRIC_UNIT_ATOMS@[70]@ == "[mi_br]"@);
    } else {
        reveal_strlit("[nmi_br]");
        assert(NON_METRIC_UNIT_ATOMS@[71]@ == "[nmi_br]"@);
    }
}

/// The entries 72 to 95 of the table are what `non_metric_shape` says.
proof fn lemma_non_metric_shape_3(i: int)
    requires
        72 <= i < 96,
    ensures
        non_metric_shape(NON_METRIC_UNIT_ATOMS@[i]@),
{
    if i == 72 {
        reveal_strlit("[kn_br]");
        assert(NON_METRIC_UNIT_ATOMS@[72]@ == "[kn_br]"@);
    } else if i == 73 {
        reveal_strlit("[acr_br]");
        assert(NON_METRIC_UNIT_ATOMS@[73]@ == "[acr_br]"@);
    } else if i == 74 {
        reveal_strlit("[gal_us]");
        assert(NON_METRIC_UNIT_ATOMS@[74]@ == "[gal_us]"@);
    } else if i == 75 {
        reveal_strlit("[bbl_us]");
        assert(NON_METRIC_UNIT_ATOMS@[75]@ == "[bbl_us]"@);
    } else if i == 76 {
        reveal_strlit("[qt_us]");
        assert(NON_METRIC_UNIT_ATOMS@[76]@ == "[qt_us]"@);
    } else if i == 77 {
        reveal_strlit("[pt_us]");
        assert(NON_METRIC_UNIT_ATOMS@[77]@ == "[pt_us]"@);
    } else if i == 78 {
        reveal_strlit("[gil_us]");
        assert(NON_METRIC_UNIT_ATOMS@[78]@ == "[gil_us]"@);
    } else if i == 79 {
        reveal_strlit("[foz_us]");
        assert(NON_METRIC_UNIT_ATOMS@[79]@ == "[foz_us]"@);
    } else if i == 80 {
        reveal_strlit("[fdr_us]");
        assert(NON_METRIC_UNIT_ATOMS@[80]@ == "[fdr_us]"@);
    } else if i == 81 {
        reveal_strlit("[min_us]");
        assert(NON_METRIC_UNIT_ATOMS@[81]@ == "[min_us]"@);
    } else if i == 82 {
        reveal_strlit("[crd_us]");
        assert(NON_METRIC_UNIT_ATOMS@[82]@ == "[crd_us]"@);
    } else if i == 83 {
        reveal_strlit("[bu_us]");
        assert(NON_METRIC_UNIT_ATOMS@[83]@ == "[bu_us]"@);
    } else if i == 84 {
        reveal_strlit("[gal_wi]");
        assert(NON_METRIC_UNIT_ATOMS@[84]@ == "[gal_wi]"@);
    } else if i == 85 {
        reveal_strlit("[pk_us]");
        assert(NON_METRIC_UNIT_ATOMS@[85]@ == "[pk_us]"@);
    } else if i == 86 {
        reveal_strlit("[dqt_us]");
        assert(NON_METRIC_UNIT_ATOMS@[86]@ == "[dqt_us]"@);
    } else if i == 87 {
        reveal_strlit("[dpt_us]");
        assert(NON_METRIC_UNIT_ATOMS@[87]@ == "[dpt_us]"@);
    } else if i == 88 {
        reveal_strlit("[tbs_us]");
        assert(NON_METRIC_UNIT_ATOMS@[88]@ == "[tbs_us]"@);
    } else if i == 89 {
        reveal_strlit("[tsp_us]");
        assert(NON_METRIC_UNIT_ATOMS@[89]@ == "[tsp_us]"@);
    } else if i == 90 {
        reveal_strlit("[cup_us]");
        assert(NON_METRIC_UNIT_ATOMS@[90]@ == "[cup_us]"@);
    } else if i == 91 {
        reveal_strlit("[foz_m]");
        assert(NON_METRIC_UNIT_ATOMS@[91]@ == "[foz_m]"@);
    } else if i == 92 {
        reveal_strlit("[cup_m]");
        assert(NON_METRIC_UNIT_ATOMS@[92]@ == "[cup_m]"@);
    } else if i == 93 {
        reveal_strlit("[tsp_m]");
        assert(NON_METRIC_UNIT_ATOMS@[93]@ == "[tsp_m]"@);
    } else if i == 94 {
        reveal_strlit("[tbs_m]");
        assert(NON_METRIC_UNIT_ATOMS@[94]@ == "[tbs_m]"@);
    } else {
        reveal_strlit("[gal_br]");
        assert(NON_METRIC_UNIT_ATOMS@[95]@ == "[gal_br]"@);
    }
}

/// The entries 96 to 119 of the table are what `non_metric_shape` says.
proof fn lemma_non_metric_shape_4(i: int)
    requires
        96 <= i < 120,
    ensures
        non_metric_shape(NON_METRIC_UNIT_ATOMS@[i]@),
{
    if i == 96 {
        reveal_strlit("[pk_br]");
        assert(NON_METRIC_UNIT_ATOMS@[96]@ == "[pk_br]"@);
    } else if i == 97 {
        reveal_strlit("[bu_br]");
        assert(NON_METRIC_UNIT_ATOMS@[97]@ == "[bu_br]"@);
    } else if i == 98 {
        reveal_strlit("[qt_br]");
        assert(NON_METRIC_UNIT_ATOMS@[98]@ == "[qt_br]"@);
    } else if i == 99 {
        reveal_strlit("[pt_br]");
        assert(NON_METRIC_UNIT_ATOMS@[99]@ == "[pt_br]"@);
    } else if i == 100 {
        reveal_strlit("[gil_br]");
        assert(NON_METRIC_UNIT_ATOMS@[100]@ == "[gil_br]"@);
    } else if i == 101 {
        reveal_strlit("[foz_br]");
        assert(NON_METRIC_UNIT_ATOMS@[101]@ == "[foz_br]"@);
    } else if i == 102 {
        reveal_strlit("[fdr_br]");
        assert(NON_METRIC_UNIT_ATOMS@[102]@ == "[fdr_br]"@);
    } else if i == 103 {
        reveal_strlit("[min_br]");
        assert(NON_METRIC_UNIT_ATOMS@[103]@ == "[min_br]"@);
    } else if i == 104 {
        reveal_strlit("[gr]");
        assert(NON_METRIC_UNIT_ATOMS@[104]@ == "[gr]"@);
    } else if i == 105 {
        reveal_strlit("[lb_av]");
        assert(NON_METRIC_UNIT_ATOMS@[105]@ == "[lb_av]"@);
    } else if i == 106 {
        reveal_strlit("[oz_av]");
        assert(NON_METRIC_UNIT_ATOMS@[106]@ == "[oz_av]"@);
    } else if i == 107 {
        reveal_strlit("[dr_av]");
        assert(NON_METRIC_UNIT_ATOMS@[107]@ == "[dr_av]"@);
    } else if i == 108 {
        reveal_strlit("[scwt_av]");
        assert(NON_METRIC_UNIT_ATOMS@[108]@ == "[scwt_av]"@);
    } else if i == 109 {
        reveal_strlit("[lcwt_av]");
        assert(NON_METRIC_UNIT_ATOMS@[109]@ == "[lcwt_av]"@);
    } else if i == 110 {
        reveal_strlit("[ston_av]");
        assert(NON_METRIC_UNIT_ATOMS@[110]@ == "[ston_av]"@);
    } else if i == 111 {
        reveal_strlit("[lton_av]");
        assert(NON_METRIC_UNIT_ATOMS@[111]@ == "[lton_av]"@);
    } else if i == 112 {
        reveal_strlit("[stone_av]");
        assert(NON_METRIC_UNIT_ATOMS@[112]@ == "[stone_av]"@);
    } else if i == 113 {
        reveal_strlit("[pwt_tr]");
        assert(NON_METRIC_UNIT_ATOMS@[113]@ == "[pwt_tr]"@);
    } else if i == 114 {
        reveal_strlit("[oz_tr]");
        assert(NON_METRIC_UNIT_ATOMS@[114]@ == "[oz_tr]"@);
    } else if i == 115 {
        reveal_strlit("[lb_tr]");
        assert(NON_METRIC_UNIT_ATOMS@[115]@ == "[lb_tr]"@);
    } else if i == 116 {
        reveal_strlit("[sc_ap]");
        assert(NON_METRIC_UNIT_ATOMS@[116]@ == "[sc_ap]"@);
    } else if i == 117 {
        reveal_strlit("[dr_ap]");
        assert(NON_METRIC_UNIT_ATOMS@[117]@ == "[dr_ap]"@);
    } else if i == 118 {
        reveal_strlit("[oz_ap]");
        assert(NON_METRIC_UNIT_ATOMS@[118]@ == "[oz_ap]"@);
    } else {
        reveal_strlit("[lb_ap]");
        assert(NON_METRIC_UNIT_ATOMS@[119]@ == "[lb_ap]"@);
    }
}

/// The entries 120 to 143 of the table are what `non_metric_shape` says.
proof fn lemma_non_metric_shape_5(i: int)
    requires
        120 <= i < 144,
    ensures
        non_metric_shape(NON_METRIC_UNIT_ATOMS@[i]@),
{
    if i == 120 {
        reveal_strlit("[oz_m]");
        assert(NON_METRIC_UNIT_ATOMS@[120]@ == "[oz_m]"@);
    } else if i == 121 {
        reveal_strlit("[lne]");
        assert(NON_METRIC_UNIT_ATOMS@[121]@ == "[lne]"@);
    } else if i == 122 {
        reveal_strlit("[pnt]");
        assert(NON_METRIC_UNIT_ATOMS@[122]@ == "[pnt]"@);
    } else if i == 123 {
        reveal_strlit("[pca]");
        assert(NON_METRIC_UNIT_ATOMS@[123]@ == "[pca]"@);
    } else if i == 124 {
        reveal_strlit("[pnt_pr]");
        assert(NON_METRIC_UNIT_ATOMS@[124]@ == "[pnt_pr]"@);
    } else if i == 125 {
        reveal_strlit("[pca_pr]");
        assert(NON_METRIC_UNIT_ATOMS@[125]@ == "[pca_pr]"@);
    } else if i == 126 {
        reveal_strlit("[pied]");
        assert(NON_METRIC_UNIT_ATOMS@[126]@ == "[pied]"@);
    } else if i == 127 {
        reveal_strlit("[pouce]");
        assert(NON_METRIC_UNIT_ATOMS@[127]@ == "[pouce]"@);
    } else if i == 128 {
        reveal_strlit("[ligne]");
        assert(NON_METRIC_UNIT_ATOMS@[128]@ == "[ligne]"@);
    } else if i == 129 {
        reveal_strlit("[didot]");
        assert(NON_METRIC_UNIT_ATOMS@[129]@ == "[didot]"@);
    } else if i == 130 {
        reveal_strlit("[cicero]");
        assert(NON_METRIC_UNIT_ATOMS@[130]@ == "[cicero]"@);
    } else if i == 131 {
        reveal_strlit("[degF]");
        assert(NON_METRIC_UNIT_ATOMS@[131]@ == "[degF]"@);
    } else if i == 132 {
        reveal_strlit("[degR]");
        assert(NON_METRIC_UNIT_ATOMS@[132]@ == "[degR]"@);
    } else if i == 133 {
        reveal_strlit("[degRe]");
        assert(NON_METRIC_UNIT_ATOMS@[133]@ == "[degRe]"@);
    } else if i == 134 {
        reveal_strlit("[Cal]");
        assert(NON_METRIC_UNIT_ATOMS@[134]@ == "[Cal]"@);
    } else if i == 135 {
        reveal_strlit("[Btu_39]");
        assert(NON_METRIC_UNIT_ATOMS@[135]@ == "[Btu_39]"@);
    } else if i == 136 {
        reveal_strlit("[Btu_59]");
        assert(NON_METRIC_UNIT_ATOMS@[136]@ == "[Btu_59]"@);
    } else if i == 137 {
        reveal_strlit("[Btu_60]");
        assert(NON_METRIC_UNIT_ATOMS@[137]@ == "[Btu_60]"@);
    } else if i == 138 {
        reveal_strlit("[Btu_m]");
        assert(NON_METRIC_UNIT_ATOMS@[138]@ == "[Btu_m]"@);
    } else if i == 139 {
        reveal_strlit("[Btu_IT]");
        assert(NON_METRIC_UNIT_ATOMS@[139]@ == "[Btu_IT]"@);
    } else if i == 140 {
        reveal_strlit("[Btu_th]");
        assert(NON_METRIC_UNIT_ATOMS@[140]@ == "[Btu_th]"@);
    } else if i == 141 {
        reveal_strlit("[Btu]");
        assert(NON_METRIC_UNIT_ATOMS@[141]@ == "[Btu]"@);
    } else if i == 142 {
        reveal_strlit("[HP]");
        assert(NON_METRIC_UNIT_ATOMS@[142]@ == "[HP]"@);
    } else {
        reveal_strlit("[den]");
        assert(NON_METRIC_UNIT_ATOMS@[143]@ == "[den]"@);
    }
}

/// The entries 144 to 167 of the table are what `non_metric_shape` says.
proof fn lemma_non_metric_shape_6(i: int)
    requires
        144 <= i < 168,
    ensures
        non_metric_shape(NON_METRIC_UNIT_ATOMS@[i]@),
{
    if i == 144 {
        reveal_strlit("[in_i'H2O]");
        assert(NON_METRIC_UNIT_ATOMS@[144]@ == "[in_i'H2O]"@);
    } else if i == 145 {
        reveal_strlit("[in_i'Hg]");
        assert(NON_METRIC_UNIT_ATOMS@[145]@ == "[in_i'Hg]"@);
    } else if i == 146 {
        reveal_strlit("[PRU]");
        assert(NON_METRIC_UNIT_ATOMS@[146]@ == "[PRU]"@);
    } else if i == 147 {
        reveal_strlit("[wood'U]");
        assert(NON_METRIC_UNIT_ATOMS@[147]@ == "[wood'U]"@);
    } else if i == 148 {
        reveal_strlit("[diop]");
        assert(NON_METRIC_UNIT_ATOMS@[148]@ == "[diop]"@);
    } else if i == 149 {
        reveal_strlit("[p'diop]");
        assert(NON_METRIC_UNIT_ATOMS@[149]@ == "[p'diop]"@);
    } else if i == 150 {
        reveal_strlit("%[slope]");
        assert(NON_METRIC_UNIT_ATOMS@[150]@ == "%[slope]"@);
    } else if i == 151 {
        reveal_strlit("[mesh_i]");
        assert(NON_METRIC_UNIT_ATOMS@[151]@ == "[mesh_i]"@);
    } else if i == 152 {
        reveal_strlit("[Ch]");
        assert(NON_METRIC_UNIT_ATOMS@[152]@ == "[Ch]"@);
    } else if i == 153 {
        reveal_strlit("[drp]");
        assert(NON_METRIC_UNIT_ATOMS@[153]@ == "[drp]"@);
    } else if i == 154 {
        reveal_strlit("[hnsf'U]");
        assert(NON_METRIC_UNIT_ATOMS@[154]@ == "[hnsf'U]"@);
    } else if i == 155 {
        reveal_strlit("[MET]");
        assert(NON_METRIC_UNIT_ATOMS@[155]@ == "[MET]"@);
    } else if i == 156 {
        reveal_strlit("[hp'_X]");
        assert(NON_METRIC_UNIT_ATOMS@[156]@ == "[hp'_X]"@);
    } else if i == 157 {
        reveal_strlit("[hp'_C]");
        assert(NON_METRIC_UNIT_ATOMS@[157]@ == "[hp'_C]"@);
    } else if i == 158 {
        reveal_strlit("[hp'_M]");
        assert(NON_METRIC_UNIT_ATOMS@[158]@ == "[hp'_M]"@);
    } else if i == 159 {
        reveal_strlit("[hp'_Q]");
        assert(NON_METRIC_UNIT_ATOMS@[159]@ == "[hp'_Q]"@);
    } else if i == 160 {
        reveal_strlit("[hp_X]");
        assert(NON_METRIC_UNIT_ATOMS@[160]@ == "[hp_X]"@);
    } else if i == 161 {
        reveal_strlit("[hp_C]");
        assert(NON_METRIC_UNIT_ATOMS@[161]@ == "[hp_C]"@);
    } else if i == 162 {
        reveal_strlit("[hp_M]");
        assert(NON_METRIC_UNIT_ATOMS@[162]@ == "[hp_M]"@);
    } else if i == 163 {
        reveal_strlit("[hp_Q]");
        assert(NON_METRIC_UNIT_ATOMS@[163]@ == "[hp_Q]"@);
    } else if i == 164 {
        reveal_strlit("[kp_X]");
        assert(NON_METRIC_UNIT_ATOMS@[164]@ == "[kp_X]"@);
    } else if i == 165 {
        reveal_strlit("[kp_C]");
        assert(NON_METRIC_UNIT_ATOMS@[165]@ == "[kp_C]"@);
    } else if i == 166 {
        reveal_strlit("[kp_M]");
        assert(NON_METRIC_UNIT_ATOMS@[166]@ == "[kp_M]"@);
    } else {
        reveal_strlit("[kp_Q]");
        assert(NON_METRIC_UNIT_ATOMS@[167]@ == "[kp_Q]"@);
    }
}

/// The entries 168 to 191 of the table are what `non_metric_shape` says.
proof fn lemma_non_metric_shape_7(i: int)
    requires
        168 <= i < 192,
    ensures
        non_metric_shape(NON_METRIC_UNIT_ATOMS@[i]@),
{
    if i == 168 {
        reveal_strlit("[pH]");
        assert(NON_METRIC_UNIT_ATOMS@[168]@ == "[pH]"@);
    } else if i == 169 {
        reveal_strlit("[S]");
        assert(NON_METRIC_UNIT_ATOMS@[169]@ == "[S]"@);
    } else if i == 170 {
        reveal_strlit("[HPF]");
        assert(NON_METRIC_UNIT_ATOMS@[170]@ == "[HPF]"@);
    } else if i == 171 {
        reveal_strlit("[LPF]");
        assert(NON_METRIC_UNIT_ATOMS@[171]@ == "[LPF]"@);
    } else if i == 172 {
        reveal_strlit("[arb'U]");
        assert(NON_METRIC_UNIT_ATOMS@[172]@ == "[arb'U]"@);
    } else if i == 173 {
        reveal_strlit("[USP'U]");
        assert(NON_METRIC_UNIT_ATOMS@[173]@ == "[USP'U]"@);
    } else if i == 174 {
        reveal_strlit("[GPL'U]");
        assert(NON_METRIC_UNIT_ATOMS@[174]@ == "[GPL'U]"@);
    } else if i == 175 {
        reveal_strlit("[MPL'U]");
        assert(NON_METRIC_UNIT_ATOMS@[175]@ == "[MPL'U]"@);
    } else if i == 176 {
        reveal_strlit("[APL'U]");
        assert(NON_METRIC_UNIT_ATOMS@[176]@ == "[APL'U]"@);
    } else if i == 177 {
        reveal_strlit("[beth'U]");
        assert(NON_METRIC_UNIT_ATOMS@[177]@ == "[beth'U]"@);
    } else if i == 178 {
        reveal_strlit("[anti'Xa'U]");
        assert(NON_METRIC_UNIT_ATOMS@[178]@ == "[anti'Xa'U]"@);
    } else if i == 179 {
        reveal_strlit("[todd'U]");
        assert(NON_METRIC_UNIT_ATOMS@[179]@ == "[todd'U]"@);
    } else if i == 180 {
        reveal_strlit("[dye'U]");
        assert(NON_METRIC_UNIT_ATOMS@[180]@ == "[dye'U]"@);
    } else if i == 181 {
        reveal_strlit("[smgy'U]");
        assert(NON_METRIC_UNIT_ATOMS@[181]@ == "[smgy'U]"@);
    } else if i == 182 {
        reveal_strlit("[bdsk'U]");
        assert(NON_METRIC_UNIT_ATOMS@[182]@ == "[bdsk'U]"@);
    } else if i == 183 {
        reveal_strlit("[ka'U]");
        assert(NON_METRIC_UNIT_ATOMS@[183]@ == "[ka'U]"@);
    } else if i == 184 {
        reveal_strlit("[knk'U]");
        assert(NON_METRIC_UNIT_ATOMS@[184]@ == "[knk'U]"@);
    } else if i == 185 {
        reveal_strlit("[mclg'U]");
        assert(NON_METRIC_UNIT_ATOMS@[185]@ == "[mclg'U]"@);
    } else if i == 186 {
        reveal_strlit("[tb'U]");
        assert(NON_METRIC_UNIT_ATOMS@[186]@ == "[tb'U]"@);
    } else if i == 187 {
        reveal_strlit("[CCID_50]");
        assert(NON_METRIC_UNIT_ATOMS@[187]@ == "[CCID_50]"@);
    } else if i == 188 {
        reveal_strlit("[TCID_50]");
        assert(NON_METRIC_UNIT_ATOMS@[188]@ == "[TCID_50]"@);
    } else if i == 189 {
        reveal_strlit("[EID_50]");
        assert(NON_METRIC_UNIT_ATOMS@[189]@ == "[EID_50]"@);
    } else if i == 190 {
        reveal_strlit("[PFU]");
        assert(NON_METRIC_UNIT_ATOMS@[190]@ == "[PFU]"@);
    } else {
        reveal_strlit("[FFU]");
        assert(NON_METRIC_UNIT_ATOMS@[191]@ == "[FFU]"@);
    }
}

/// The entries 192 to 215 of the table are what `non_metric_shape` says.
proof fn lemma_non_metric_shape_8(i: int)
    requires
        192 <= i < 216,
    ensures
        non_metric_shape(NON_METRIC_UNIT_ATOMS@[i]@),
{
    if i == 192 {
        reveal_strlit("[CFU]");
        assert(NON_METRIC_UNIT_ATOMS@[192]@ == "[CFU]"@);
    } else if i == 193 {
        reveal_strlit("[IR]");
        assert(NON_METRIC_UNIT_ATOMS@[193]@ == "[IR]"@);
    } else if i == 194 {
        reveal_strlit("[BAU]");
        assert(NON_METRIC_UNIT_ATOMS@[194]@ == "[BAU]"@);
    } else if i == 195 {
        reveal_strlit("[AU]");
        assert(NON_METRIC_UNIT_ATOMS@[195]@ == "[AU]"@);
    } else if i == 196 {
        reveal_strlit("[Amb'a'1'U]");
        assert(NON_METRIC_UNIT_ATOMS@[196]@ == "[Amb'a'1'U]"@);
    } else if i == 197 {
        reveal_strlit("[PNU]");
        assert(NON_METRIC_UNIT_ATOMS@[197]@ == "[PNU]"@);
    } else if i == 198 {
        reveal_strlit("[Lf]");
        assert(NON_METRIC_UNIT_ATOMS@[198]@ == "[Lf]"@);
    } else if i == 199 {
        reveal_strlit("[D'ag'U]");
        assert(NON_METRIC_UNIT_ATOMS@[199]@ == "[D'ag'U]"@);
    } else if i == 200 {
        reveal_strlit("[FEU]");
        assert(NON_METRIC_UNIT_ATOMS@[200]@ == "[FEU]"@);
    } else if i == 201 {
        reveal_strlit("[ELU]");
        assert(NON_METRIC_UNIT_ATOMS@[201]@ == "[ELU]"@);
    } else if i == 202 {
        reveal_strlit("[EU]");
        assert(NON_METRIC_UNIT_ATOMS@[202]@ == "[EU]"@);
    } else if i == 203 {
        reveal_strlit("Ao");
        assert(NON_METRIC_UNIT_ATOMS@[203]@ == "Ao"@);
    } else if i == 204 {
        reveal_strlit("b");
        assert(NON_METRIC_UNIT_ATOMS@[204]@ == "b"@);
    } else if i == 205 {
        reveal_strlit("att");
        assert(NON_METRIC_UNIT_ATOMS@[205]@ == "att"@);
    } else if i == 206 {
        reveal_strlit("[psi]");
        assert(NON_METRIC_UNIT_ATOMS@[206]@ == "[psi]"@);
    } else if i == 207 {
        reveal_strlit("circ");
        assert(NON_METRIC_UNIT_ATOMS@[207]@ == "circ"@);
    } else if i == 208 {
        reveal_strlit("sph");
        assert(NON_METRIC_UNIT_ATOMS@[208]@ == "sph"@);
    } else if i == 209 {
        reveal_strlit("[car_m]");
        assert(NON_METRIC_UNIT_ATOMS@[209]@ == "[car_m]"@);
    } else if i == 210 {
        reveal_strlit("[car_Au]");
        assert(NON_METRIC_UNIT_ATOMS@[210]@ == "[car_Au]"@);
    } else if i == 211 {
        reveal_strlit("[smoot]");
        assert(NON_METRIC_UNIT_ATOMS@[211]@ == "[smoot]"@);
    } else if i == 212 {
        reveal_strlit("[m/s2/Hz^(1/2)]");
        assert(NON_METRIC_UNIT_ATOMS@[212]@ == "[m/s2/Hz^(1/2)]"@);
    } else if i == 213 {
        reveal_strlit("bit_s");
        assert(NON_METRIC_UNIT_ATOMS@[213]@ == "bit_s"@);
    } else if i == 214 {
        reveal_strlit("{tot}");
        assert(NON_METRIC_UNIT_ATOMS@[214]@ == "{tot}"@);
    } else {
        reveal_strlit("{tbl}");
        assert(NON_METRIC_UNIT_ATOMS@[215]@ == "{tbl}"@);
    }
}

/// The entries 216 to 220 of the table are what `non_metric_shape` says.
proof fn lemma_non_metric_shape_9(i: int)
    requires
        216 <= i < 221,
    ensures
        non_metric_shape(NON_METRIC_UNIT_ATOMS@[i]@),
{
    if i == 216 {
        reveal_strlit("{rbc}");
        assert(NON_METRIC_UNIT_ATOMS@[216]@ == "{rbc}"@);
    } else if i == 217 {
        reveal_strlit("g.m/{H.B.}");
        assert(NON_METRIC_UNIT_ATOMS@[217]@ == "g.m/{H.B.}"@);
    } else if i == 218 {
        reveal_strlit("gf.m/{H.B.}");
        assert(NON_METRIC_UNIT_ATOMS@[218]@ == "gf.m/{H.B.}"@);
    } else if i == 219 {
        reveal_strlit("kg{wet'tis}");
        assert(NON_METRIC_UNIT_ATOMS@[219]@ == "kg{wet'tis}"@);
    } else {
        reveal_strlit("mg{creat}");
        assert(NON_METRIC_UNIT_ATOMS@[220]@ == "mg{creat}"@);
    }
}

/// Every unit atoms that take no prefix is what `non_metric_shape` says.
pub proof fn lemma_non_metric_shape(x: Seq<char>)
    requires
        is_non_metric_atom(x),
    ensures
        non_metric_shape(x),
{
    let i = choose|i: int| 0 <= i < NON_METRIC_UNIT_ATOMS@.len() && #[trigger] NON_METRIC_UNIT_ATOMS@[i]@ == x;
    if i < 24 {
        lemma_non_metric_shape_0(i);
    } else if i < 48 {
        lemma_non_metric_shape_1(i);
    } else if i < 72 {
        lemma_non_metric_shape_2(i);
    } else if i < 96 {
        lemma_non_metric_shape_3(i);
    } else if i < 120 {
        lemma_non_metric_shape_4(i);
    } else if i < 144 {
        lemma_non_metric_shape_5(i);
    } else if i < 168 {
        lemma_non_metric_shape_6(i);
    } else if i < 192 {
        lemma_non_metric_shape_7(i);
    } else if i < 216 {
        lemma_non_metric_shape_8(i);
    } else if i < 221 {
        lemma_non_metric_shape_9(i);
    }
}

/// A prefix before a metric unit atom is split off: the symbol made of a
/// prefix and a metric unit atom is the unit with that prefix and that atom.
pub proof fn law_prefix_is_split_off(
    prefix: Seq<char>,
    atom: Seq<char>,
    exp: int,
    annotation: Option<Seq<char>>,
)
    requires
        is_prefix_symbol(prefix),
        is_metric_atom(atom),
    ensures
        unit_of(prefix + atom, exp, annotation).prefix == prefix,
        unit_of(prefix + atom, exp, annotation).atom == atom,
{
    let s = prefix + atom;
    lemma_prefix_shape(prefix);
    lemma_metric_shape(atom);
    if prefix.len() == 1 {
        assert(s.take(1) =~= prefix);
        assert(s.skip(1) =~= atom);
    } else {
        assert(s.take(2) =~= prefix);
        assert(s.skip(2) =~= atom);
        if is_prefix_symbol(s.take(1)) && is_metric_atom(s.skip(1)) {
            lemma_prefix_shape(s.take(1));
            lemma_metric_shape(s.skip(1));
            assert(s.take(1)[0] == prefix[0]);
            assert(s.skip(1)[0] == prefix[1]);
            assert(s.skip(1).len() == atom.len() + 1);
            if s.skip(1).len() >= 2 {
                assert(s.skip(1)[1] == atom[0]);
            }
            assert(false);
        }
    }
}

/// A unit atom that takes no prefix is not split: its symbol is the unit
/// without prefix whose atom is the whole symbol.
pub proof fn law_non_metric_is_not_split(atom: Seq<char>, exp: int, annotation: Option<Seq<char>>)
    requires
        is_non_metric_atom(atom),
    ensures
        unit_of(atom, exp, annotation).prefix == Seq::<char>::empty(),
        unit_of(atom, exp, annotation).atom == atom,
{
    lemma_non_metric_shape(atom);
    if atom.len() > 1 && is_prefix_symbol(atom.take(1)) && is_metric_atom(atom.skip(1)) {
        lemma_prefix_shape(atom.take(1));
        lemma_metric_shape(atom.skip(1));
        assert(atom.take(1)[0] == atom[0]);
        assert(atom.skip(1)[0] == atom[1]);
        if atom.len() > 2 {
            assert(atom.skip(1)[1] == atom[2]);
        }
        if atom.len() > 3 {
            assert(atom.skip(1)[2] == atom[3]);
        }
        assert(false);
    }
    if atom.len() > 2 && is_prefix_symbol(atom.take(2)) && is_metric_atom(atom.skip(2)) {
        lemma_prefix_shape(atom.take(2));
        assert(atom.take(2)[0] == atom[0]);
        assert(atom.take(2)[1] == atom[1]);
        assert(false);
    }
    assert(prefix_len(atom) == 0);
    assert(atom.take(0) =~= Seq::<char>::empty());
    assert(atom.skip(0) =~= atom);
}

} // verus!
