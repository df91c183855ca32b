//! Reading the Intel intrinsics catalog: the XML document is read through
//! `roxmltree` into plain records, and everything after that — type-string
//! parsing, the mitigation filters, and the catalog build — is this crate's
//! own verified logic.
use vstd::prelude::*;

use crate::x86_types::{
    X86BaseType, X86SIMDEType, X86SIMDType, X86SIMDIntrinsic, X86SIMDIntrinsicV,
    spec_is_simd_type_floating_point, is_simd_type_floating_point,
};
use crate::arm_parse::contains_char;
use crate::arm_types::str_eq;
use crate::fmt_num::{spec_take_num, take_num_u64};

verus! {

/// One `parameter` element of an intrinsic record, as plain strings.
#[derive(Debug)]
pub struct X86XmlParam {
    pub ptype: String,
    pub etype: Option<String>,
    pub imm_width: Option<String>,
}

/// Mathematical image of one parameter element.
pub struct X86XmlParamV {
    pub ptype: Seq<char>,
    pub etype: Option<Seq<char>>,
    pub imm_width: Option<Seq<char>>,
}

impl View for X86XmlParam {
    type V = X86XmlParamV;

    open spec fn view(&self) -> X86XmlParamV {
        X86XmlParamV {
            ptype: self.ptype@,
            etype: match self.etype {
                Some(s) => Some(s@),
                None => None,
            },
            imm_width: match self.imm_width {
                Some(s) => Some(s@),
                None => None,
            },
        }
    }
}

/// One `intrinsic` element of the catalog document, as plain strings.
#[derive(Debug)]
pub struct X86XmlRec {
    pub name: String,
    pub sequence: bool,
    pub cpuid: Option<String>,
    pub rettype: String,
    pub ret_etype: Option<String>,
    pub params: Vec<X86XmlParam>,
}

/// Mathematical image of one intrinsic element.
pub struct X86XmlRecV {
    pub name: Seq<char>,
    pub sequence: bool,
    pub cpuid: Option<Seq<char>>,
    pub rettype: Seq<char>,
    pub ret_etype: Option<Seq<char>>,
    pub params: Seq<X86XmlParamV>,
}

impl View for X86XmlRec {
    type V = X86XmlRecV;

    open spec fn view(&self) -> X86XmlRecV {
        X86XmlRecV {
            name: self.name@,
            sequence: self.sequence,
            cpuid: match self.cpuid {
                Some(s) => Some(s@),
                None => None,
            },
            rettype: self.rettype@,
            ret_etype: match self.ret_etype {
                Some(s) => Some(s@),
                None => None,
            },
            params: Seq::new(self.params@.len(), |i: int| self.params@[i]@),
        }
    }
}

/// The intrinsic records of the catalog document, a function of its text
/// alone; empty when the text does not parse as XML.
pub uninterp spec fn xml_intrinsics_of(s: Seq<char>) -> Seq<X86XmlRecV>;

/// Relies on `roxmltree::Document::parse`: how many `intrinsic` elements the
/// document's root holds, determined by the text alone.
#[verifier::external_body]
fn xml_intrinsic_count(xml: &str) -> (r: usize)
    ensures
        r == xml_intrinsics_of(xml@).len(),
{
    match roxmltree::Document::parse(xml) {
        Ok(doc) => doc.root_element().children().filter(|c| c.has_tag_name("intrinsic")).count(),
        Err(_) => 0,
    }
}

/// The non-parameter fields of one `intrinsic` element.
#[derive(Debug)]
pub struct X86XmlHeader {
    pub name: String,
    pub sequence: bool,
    pub rettype: String,
    pub ret_etype: Option<String>,
}

/// Relies on `roxmltree::Document::parse`: the `i`-th `intrinsic` element's
/// name, sequence mark, and return type, determined by the text alone.
#[verifier::external_body]
fn xml_intrinsic_header_at(xml: &str, i: usize) -> (r: Option<X86XmlHeader>)
    ensures
        match r {
            Some(h) => i >= xml_intrinsics_of(xml@).len() || {
                let rec = xml_intrinsics_of(xml@)[i as int];
                &&& h.name@ == rec.name
                &&& h.sequence == rec.sequence
                &&& h.rettype@ == rec.rettype
                &&& (match h.ret_etype {
                    Some(c) => rec.ret_etype == Some(c@),
                    None => rec.ret_etype is None,
                })
            },
            None => i >= xml_intrinsics_of(xml@).len(),
        },
{
    let doc = roxmltree::Document::parse(xml).ok()?;
    let n = doc.root_element().children().filter(|c| c.has_tag_name("intrinsic")).nth(i)?;
    let ret = n.children().find(|c| c.has_tag_name("return"));
    Some(X86XmlHeader {
        name: n.attribute("name").unwrap_or("").to_string(),
        sequence: n.attribute("sequence") == Some("TRUE"),
        rettype: ret.and_then(|c| c.attribute("type")).unwrap_or("").to_string(),
        ret_etype: ret.and_then(|c| c.attribute("etype")).map(|s| s.to_string()),
    })
}

/// Relies on `roxmltree::Document::parse`: the `i`-th `intrinsic` element's
/// CPUID text, determined by the text alone.
#[verifier::external_body]
fn xml_intrinsic_cpuid_at(xml: &str, i: usize) -> (r: Option<String>)
    ensures
        match r {
            Some(c) => i >= xml_intrinsics_of(xml@).len() || xml_intrinsics_of(xml@)[i as int].cpuid
                == Some(c@),
            None => i >= xml_intrinsics_of(xml@).len() || xml_intrinsics_of(
                xml@,
            )[i as int].cpuid is None,
        },
{
    let doc = roxmltree::Document::parse(xml).ok()?;
    let n = doc.root_element().children().filter(|c| c.has_tag_name("intrinsic")).nth(i)?;
    n.children().find(|c| c.has_tag_name("CPUID")).and_then(|c| c.text()).map(|s| s.to_string())
}

/// Relies on `roxmltree::Document::parse`: the `i`-th `intrinsic` element's
/// parameter list, determined by the text alone.
#[verifier::external_body]
fn xml_intrinsic_params_at(xml: &str, i: usize) -> (r: Option<Vec<X86XmlParam>>)
    ensures
        match r {
            Some(v) => i >= xml_intrinsics_of(xml@).len() || Seq::new(v@.len(), |k: int| v@[k]@)
                == xml_intrinsics_of(xml@)[i as int].params,
            None => i >= xml_intrinsics_of(xml@).len(),
        },
{
    let doc = roxmltree::Document::parse(xml).ok()?;
    let n = doc.root_element().children().filter(|c| c.has_tag_name("intrinsic")).nth(i)?;
    Some(n.children().filter(|c| c.has_tag_name("parameter")).map(|c| X86XmlParam {
        ptype: c.attribute("type").unwrap_or("").to_string(),
        etype: c.attribute("etype").map(|s| s.to_string()),
        imm_width: c.attribute("immwidth").map(|s| s.to_string()),
    }).collect())
}

} // verus!

verus! {

/// An element-type tag, by its name in the catalog document.
pub open spec fn spec_parse_x86_etype(s: Seq<char>) -> Option<X86SIMDEType> {
    if s == "UI8"@ {
        Some(X86SIMDEType::UInt8)
    } else if s == "SI8"@ {
        Some(X86SIMDEType::Int8)
    } else if s == "UI16"@ {
        Some(X86SIMDEType::UInt16)
    } else if s == "SI16"@ {
        Some(X86SIMDEType::Int16)
    } else if s == "UI32"@ {
        Some(X86SIMDEType::UInt32)
    } else if s == "SI32"@ {
        Some(X86SIMDEType::Int32)
    } else if s == "UI64"@ {
        Some(X86SIMDEType::UInt64)
    } else if s == "SI64"@ {
        Some(X86SIMDEType::Int64)
    } else if s == "FP32"@ {
        Some(X86SIMDEType::Float32)
    } else if s == "FP64"@ {
        Some(X86SIMDEType::Float64)
    } else if s == "M64"@ {
        Some(X86SIMDEType::M64)
    } else if s == "M128"@ {
        Some(X86SIMDEType::M128)
    } else if s == "M256"@ {
        Some(X86SIMDEType::M256)
    } else if s == "MASK"@ {
        Some(X86SIMDEType::Mask)
    } else {
        None
    }
}

pub fn parse_etype_from_str(s: &str) -> (r: Option<X86SIMDEType>)
    ensures
        r == spec_parse_x86_etype(s@),
{
    if str_eq(s, "UI8") {
        Some(X86SIMDEType::UInt8)
    } else if str_eq(s, "SI8") {
        Some(X86SIMDEType::Int8)
    } else if str_eq(s, "UI16") {
        Some(X86SIMDEType::UInt16)
    } else if str_eq(s, "SI16") {
        Some(X86SIMDEType::Int16)
    } else if str_eq(s, "UI32") {
        Some(X86SIMDEType::UInt32)
    } else if str_eq(s, "SI32") {
        Some(X86SIMDEType::Int32)
    } else if str_eq(s, "UI64") {
        Some(X86SIMDEType::UInt64)
    } else if str_eq(s, "SI64") {
        Some(X86SIMDEType::Int64)
    } else if str_eq(s, "FP32") {
        Some(X86SIMDEType::Float32)
    } else if str_eq(s, "FP64") {
        Some(X86SIMDEType::Float64)
    } else if str_eq(s, "M64") {
        Some(X86SIMDEType::M64)
    } else if str_eq(s, "M128") {
        Some(X86SIMDEType::M128)
    } else if str_eq(s, "M256") {
        Some(X86SIMDEType::M256)
    } else if str_eq(s, "MASK") {
        Some(X86SIMDEType::Mask)
    } else {
        None
    }
}

/// Whether `p` starts the string.
pub open spec fn spec_has_prefix(s: Seq<char>, p: Seq<char>) -> bool {
    s.len() >= p.len() && s.subrange(0, p.len() as int) == p
}

/// The string with a leading `p` removed, when it is there.
pub open spec fn spec_strip(s: Seq<char>, p: Seq<char>) -> Seq<char> {
    if spec_has_prefix(s, p) {
        s.skip(p.len() as int)
    } else {
        s
    }
}

/// Whether the characters of `s` starting at `off` begin with `p`.
fn has_prefix_at(s: &str, off: usize, p: &str) -> (r: bool)
    requires
        off <= s@.len(),
    ensures
        r == spec_has_prefix(s@.skip(off as int), p@),
{
    let n = s.unicode_len();
    let m = p.unicode_len();
    if n - off < m {
        return false;
    }
    let mut j: usize = 0;
    while j < m
        invariant
            n == s@.len(),
            m == p@.len(),
            off + m <= n,
            j <= m,
            forall|k: int| 0 <= k < j ==> s@[off + k] == p@[k],
        decreases m - j,
    {
        if s.get_char(off + j) != p.get_char(j) {
            proof {
                assert(s@.skip(off as int).subrange(0, m as int)[j as int] == s@[off + j]);
                assert(s@.skip(off as int).subrange(0, m as int) != p@);
            }
            return false;
        }
        j = j + 1;
    }
    proof {
        assert(s@.skip(off as int).subrange(0, m as int) =~= p@);
    }
    true
}

/// Whether the characters of `s` starting at `off` are exactly `p`.
fn tail_eq(s: &str, off: usize, p: &str) -> (r: bool)
    requires
        off <= s@.len(),
    ensures
        r == (s@.skip(off as int) == p@),
{
    let n = s.unicode_len();
    let m = p.unicode_len();
    if n - off != m {
        proof {
            assert(s@.skip(off as int).len() == n - off);
        }
        return false;
    }
    if has_prefix_at(s, off, p) {
        proof {
            assert(s@.skip(off as int) =~= s@.skip(off as int).subrange(0, m as int));
        }
        true
    } else {
        proof {
            assert(s@.skip(off as int).subrange(0, m as int) =~= s@.skip(off as int));
        }
        false
    }
}

/// A scalar or vector type, by its name in the catalog document; vector
/// names need the element-type tag beside them, as the document writes it.
pub open spec fn spec_parse_x86_type_no_imm(s0: Seq<char>, e: Option<Seq<char>>) -> Option<
    X86SIMDType,
> {
    let s = spec_strip(s0, "const "@);
    if spec_has_prefix(s, "unsigned"@) {
        let t = spec_strip(s, "unsigned "@);
        if t == "char"@ {
            Some(X86SIMDType::Primitive(X86BaseType::UInt8))
        } else if t == "short"@ {
            Some(X86SIMDType::Primitive(X86BaseType::UInt16))
        } else if t == "int"@ {
            Some(X86SIMDType::Primitive(X86BaseType::UInt32))
        } else if t == "__int64"@ {
            Some(X86SIMDType::Primitive(X86BaseType::UInt64))
        } else {
            None
        }
    } else if s == "void"@ {
        Some(X86SIMDType::Primitive(X86BaseType::Void))
    } else if s == "char"@ || s == "__int8"@ {
        Some(X86SIMDType::Primitive(X86BaseType::Int8))
    } else if s == "short"@ || s == "__int16"@ {
        Some(X86SIMDType::Primitive(X86BaseType::Int16))
    } else if s == "int"@ || s == "__int32"@ {
        Some(X86SIMDType::Primitive(X86BaseType::Int32))
    } else if s == "__int64"@ || s == "long long"@ {
        Some(X86SIMDType::Primitive(X86BaseType::Int64))
    } else if s == "float"@ {
        Some(X86SIMDType::Primitive(X86BaseType::Float32))
    } else if s == "double"@ {
        Some(X86SIMDType::Primitive(X86BaseType::Float64))
    } else {
        match e {
            Some(es) => match spec_parse_x86_etype(es) {
                Some(et) => {
                    if s == "__m64"@ {
                        Some(X86SIMDType::M64(et))
                    } else if s == "__m128"@ {
                        Some(X86SIMDType::M128(et))
                    } else if s == "__m128d"@ {
                        Some(X86SIMDType::M128d(et))
                    } else if s == "__m128i"@ {
                        Some(X86SIMDType::M128i(et))
                    } else if s == "__m256"@ {
                        Some(X86SIMDType::M256(et))
                    } else if s == "__m256d"@ {
                        Some(X86SIMDType::M256d(et))
                    } else if s == "__m256i"@ {
                        Some(X86SIMDType::M256i(et))
                    } else {
                        None
                    }
                },
                None => None,
            },
            None => None,
        }
    }
}

pub fn parse_type_from_str_no_imm(s: &str, e: Option<&str>) -> (r: Option<X86SIMDType>)
    ensures
        r == spec_parse_x86_type_no_imm(
            s@,
            match e {
                Some(es) => Some(es@),
                None => None,
            },
        ),
{
    let slen = s.unicode_len();
    let cp = "const ";
    let off: usize = if has_prefix_at(s, 0, cp) {
        cp.unicode_len()
    } else {
        0
    };
    proof {
        assert(s@.skip(0) =~= s@);
        assert(s@.skip(off as int) =~= spec_strip(s@, "const "@));
    }
    let ghost st = spec_strip(s@, "const "@);
    if has_prefix_at(s, off, "unsigned") {
        let up = "unsigned ";
        let off2: usize = if has_prefix_at(s, off, up) {
            proof {
                assert(s@.skip(off as int).len() == s@.len() - off);
            }
            off + up.unicode_len()
        } else {
            off
        };
        proof {
            reveal_strlit("unsigned ");
            if spec_has_prefix(st, "unsigned "@) {
                assert(s@.skip(off2 as int) =~= st.skip(9));
            }
            assert(s@.skip(off2 as int) =~= spec_strip(st, "unsigned "@));
        }
        if tail_eq(s, off2, "char") {
            Some(X86SIMDType::Primitive(X86BaseType::UInt8))
        } else if tail_eq(s, off2, "short") {
            Some(X86SIMDType::Primitive(X86BaseType::UInt16))
        } else if tail_eq(s, off2, "int") {
            Some(X86SIMDType::Primitive(X86BaseType::UInt32))
        } else if tail_eq(s, off2, "__int64") {
            Some(X86SIMDType::Primitive(X86BaseType::UInt64))
        } else {
            None
        }
    } else if tail_eq(s, off, "void") {
        Some(X86SIMDType::Primitive(X86BaseType::Void))
    } else if tail_eq(s, off, "char") || tail_eq(s, off, "__int8") {
        Some(X86SIMDType::Primitive(X86BaseType::Int8))
    } else if tail_eq(s, off, "short") || tail_eq(s, off, "__int16") {
        Some(X86SIMDType::Primitive(X86BaseType::Int16))
    } else if tail_eq(s, off, "int") || tail_eq(s, off, "__int32") {
        Some(X86SIMDType::Primitive(X86BaseType::Int32))
    } else if tail_eq(s, off, "__int64") || tail_eq(s, off, "long long") {
        Some(X86SIMDType::Primitive(X86BaseType::Int64))
    } else if tail_eq(s, off, "float") {
        Some(X86SIMDType::Primitive(X86BaseType::Float32))
    } else if tail_eq(s, off, "double") {
        Some(X86SIMDType::Primitive(X86BaseType::Float64))
    } else {
        let es = match e {
            Some(es) => es,
            None => {
                return None;
            },
        };
        let et = match parse_etype_from_str(es) {
            Some(et) => et,
            None => {
                return None;
            },
        };
        if tail_eq(s, off, "__m64") {
            Some(X86SIMDType::M64(et))
        } else if tail_eq(s, off, "__m128") {
            Some(X86SIMDType::M128(et))
        } else if tail_eq(s, off, "__m128d") {
            Some(X86SIMDType::M128d(et))
        } else if tail_eq(s, off, "__m128i") {
            Some(X86SIMDType::M128i(et))
        } else if tail_eq(s, off, "__m256") {
            Some(X86SIMDType::M256(et))
        } else if tail_eq(s, off, "__m256d") {
            Some(X86SIMDType::M256d(et))
        } else if tail_eq(s, off, "__m256i") {
            Some(X86SIMDType::M256i(et))
        } else {
            None
        }
    }
}

/// A parameter or return type with its immediate-width mark folded in: a
/// scalar with a width becomes a compile-time constant of that width.  A
/// width outside the immediate range the generator can draw from, a width on
/// a non-scalar type, and a malformed width are refused.
pub open spec fn spec_parse_x86_type(
    s: Seq<char>,
    e: Option<Seq<char>>,
    imm: Option<Seq<char>>,
) -> Option<X86SIMDType> {
    match spec_parse_x86_type_no_imm(s, e) {
        None => None,
        Some(t) => match imm {
            None => Some(t),
            Some(w) => match t {
                X86SIMDType::Primitive(bt) => match spec_take_num(w, 0) {
                    Some((v, end)) => if end == w.len() && v <= 31 {
                        Some(X86SIMDType::ConstantImmediate(bt, v as i32))
                    } else {
                        None
                    },
                    None => None,
                },
                _ => None,
            },
        },
    }
}

pub fn parse_type_from_str(s: &str, e: Option<&str>, imm: Option<&str>) -> (r: Option<X86SIMDType>)
    ensures
        r == spec_parse_x86_type(
            s@,
            match e {
                Some(es) => Some(es@),
                None => None,
            },
            match imm {
                Some(ws) => Some(ws@),
                None => None,
            },
        ),
{
    let t = match parse_type_from_str_no_imm(s, e) {
        Some(t) => t,
        None => {
            return None;
        },
    };
    let w = match imm {
        Some(w) => w,
        None => {
            return Some(t);
        },
    };
    let bt = match t {
        X86SIMDType::Primitive(bt) => bt,
        _ => {
            return None;
        },
    };
    match take_num_u64(w, 0) {
        Some((v, end)) => {
            if end == w.unicode_len() && v <= 31 {
                Some(X86SIMDType::ConstantImmediate(bt, v as i32))
            } else {
                None
            }
        },
        None => None,
    }
}

/// The instruction-set levels the fuzzer exercises.
pub open spec fn spec_x86_cpuid_valid(s: Seq<char>) -> bool {
    ||| s == "AVX"@
    ||| s == "AVX2"@
    ||| s == "FMA"@
    ||| s == "SSE"@
    ||| s == "SSE2"@
    ||| s == "SSE3"@
    ||| s == "SSSE3"@
    ||| s == "SSE4.1"@
    ||| s == "SSE4.2"@
}

pub fn x86_cpuid_valid(s: &str) -> (r: bool)
    ensures
        r == spec_x86_cpuid_valid(s@),
{
    str_eq(s, "AVX") || str_eq(s, "AVX2") || str_eq(s, "FMA") || str_eq(s, "SSE") || str_eq(
        s,
        "SSE2",
    ) || str_eq(s, "SSE3") || str_eq(s, "SSSE3") || str_eq(s, "SSE4.1") || str_eq(s, "SSE4.2")
}

/// Intrinsics kept out of the catalog: the rounding family (its rounding-mode
/// argument is not modelled), the broadcast one major compiler lacks, and the
/// ones that leave part of their destination undefined.
pub open spec fn spec_x86_name_disallowed(s: Seq<char>) -> bool {
    ||| s == "_mm_round_sd"@
    ||| s == "_mm_round_ss"@
    ||| s == "_mm_round_pd"@
    ||| s == "_mm_round_ps"@
    ||| s == "_mm256_round_ps"@
    ||| s == "_mm256_round_pd"@
    ||| s == "_mm_broadcastsi128_si256"@
    ||| s == "_mm256_undefined_ps"@
    ||| s == "_mm256_undefined_pd"@
    ||| s == "_mm256_undefined_si256"@
    ||| s == "_mm256_castps128_ps256"@
    ||| s == "_mm256_castpd128_pd256"@
    ||| s == "_mm256_castsi128_si256"@
    ||| s == "_mm_undefined_ps"@
    ||| s == "_mm_undefined_pd"@
    ||| s == "_mm_undefined_si128"@
    ||| s == "_mm256_zextsi128_si256"@
}

pub fn x86_name_disallowed(s: &str) -> (r: bool)
    ensures
        r == spec_x86_name_disallowed(s@),
{
    str_eq(s, "_mm_round_sd") || str_eq(s, "_mm_round_ss") || str_eq(s, "_mm_round_pd") || str_eq(
        s,
        "_mm_round_ps",
    ) || str_eq(s, "_mm256_round_ps") || str_eq(s, "_mm256_round_pd") || str_eq(
        s,
        "_mm_broadcastsi128_si256",
    ) || str_eq(s, "_mm256_undefined_ps") || str_eq(s, "_mm256_undefined_pd") || str_eq(
        s,
        "_mm256_undefined_si256",
    ) || str_eq(s, "_mm256_castps128_ps256") || str_eq(s, "_mm256_castpd128_pd256") || str_eq(
        s,
        "_mm256_castsi128_si256",
    ) || str_eq(s, "_mm_undefined_ps") || str_eq(s, "_mm_undefined_pd") || str_eq(
        s,
        "_mm_undefined_si128",
    ) || str_eq(s, "_mm256_zextsi128_si256")
}

} // verus!

verus! {

/// What catalog construction needs of one intrinsic: a modest parameter
/// list whose constant immediates carry representable widths.
pub open spec fn x86_intrinsic_sig_ok(v: X86SIMDIntrinsicV) -> bool {
    &&& v.param_types.len() <= 32
    &&& forall|p: int|
        0 <= p < v.param_types.len() ==> match #[trigger] v.param_types[p] {
            X86SIMDType::ConstantImmediate(_, w) => 0 <= w <= 31,
            _ => true,
        }
}

/// The parsed types of a record's first `k` parameters, `void` parameters
/// dropped; `None` when one does not parse.
pub open spec fn spec_parse_params(ps: Seq<X86XmlParamV>, k: int) -> Option<Seq<X86SIMDType>>
    decreases k,
{
    if k <= 0 {
        Some(Seq::empty())
    } else {
        match spec_parse_params(ps, k - 1) {
            None => None,
            Some(acc) => match spec_parse_x86_type(
                ps[k - 1].ptype,
                ps[k - 1].etype,
                ps[k - 1].imm_width,
            ) {
                None => None,
                Some(t) => if t == X86SIMDType::Primitive(X86BaseType::Void) {
                    Some(acc)
                } else {
                    Some(acc.push(t))
                },
            },
        }
    }
}

pub proof fn lemma_parse_params_none(ps: Seq<X86XmlParamV>, k: int, n: int)
    requires
        0 <= k <= n,
        spec_parse_params(ps, k) is None,
    ensures
        spec_parse_params(ps, n) is None,
    decreases n - k,
{
    if n > k {
        lemma_parse_params_none(ps, k, n - 1);
    }
}

pub open spec fn spec_has_star(s: Seq<char>) -> bool {
    exists|i: int| 0 <= i < s.len() && s[i] == '*'
}

/// What one record contributes to the catalog list: skipped by a filter,
/// kept as an intrinsic, or refused outright because a kept candidate's
/// types do not parse.
pub open spec fn spec_x86_rec_result(rec: X86XmlRecV) -> Option<Option<X86SIMDIntrinsicV>> {
    if rec.sequence || spec_x86_name_disallowed(rec.name) {
        Some(None)
    } else {
        match rec.cpuid {
            None => Some(None),
            Some(c) => if !spec_x86_cpuid_valid(c) || spec_has_star(rec.rettype) || (exists|i: int|
                0 <= i < rec.params.len() && spec_has_star((#[trigger] rec.params[i]).ptype)) {
                Some(None)
            } else {
                match spec_parse_params(rec.params, rec.params.len() as int) {
                    None => None,
                    Some(ps) => match spec_parse_x86_type(rec.rettype, rec.ret_etype, None) {
                        None => None,
                        Some(rt) => if ps.len() > 32 {
                            Some(None)
                        } else if (rt is M64) || (exists|i: int|
                            0 <= i < ps.len() && (#[trigger] ps[i]) is M64) {
                            Some(None)
                        } else if spec_is_simd_type_floating_point(rt) || (exists|i: int|
                            0 <= i < ps.len() && spec_is_simd_type_floating_point(
                                #[trigger] ps[i],
                            )) {
                            Some(None)
                        } else {
                            Some(
                                Some(
                                    X86SIMDIntrinsicV {
                                        name: rec.name,
                                        return_type: rt,
                                        param_types: ps,
                                    },
                                ),
                            )
                        },
                    },
                }
            },
        }
    }
}

/// Apply one record's filters and type parses.
fn x86_rec_step(rec: &X86XmlRec) -> (r: Option<Option<X86SIMDIntrinsic>>)
    ensures
        match r {
            Some(ox) => match ox {
                Some(x) => spec_x86_rec_result(rec@) == Some(Some(x@)) && x86_intrinsic_sig_ok(x@),
                None => spec_x86_rec_result(rec@) == Some(None::<X86SIMDIntrinsicV>),
            },
            None => spec_x86_rec_result(rec@) is None,
        },
{
    if rec.sequence || x86_name_disallowed(rec.name.as_str()) {
        return Some(None);
    }
    let cpuid = match &rec.cpuid {
        Some(c) => c,
        None => {
            return Some(None);
        },
    };
    if !x86_cpuid_valid(cpuid.as_str()) || contains_char(rec.rettype.as_str(), '*') {
        return Some(None);
    }
    let mut param_star = false;
    let mut i: usize = 0;
    while i < rec.params.len()
        invariant
            rec.params@.len() == rec@.params.len(),
            i <= rec@.params.len(),
            param_star == (exists|k: int|
                0 <= k < i && spec_has_star((#[trigger] rec@.params[k]).ptype)),
        decreases rec@.params.len() - i,
    {
        if contains_char(rec.params[i].ptype.as_str(), '*') {
            proof {
                assert(rec.params@[i as int]@ == rec@.params[i as int]);
                assert(spec_has_star(rec@.params[i as int].ptype));
            }
            param_star = true;
        }
        i = i + 1;
    }
    if param_star {
        return Some(None);
    }
    let ghost pv = rec@.params;
    let mut ps: Vec<X86SIMDType> = Vec::new();
    let mut params_fail = false;
    let mut j: usize = 0;
    while j < rec.params.len()
        invariant
            pv == rec@.params,
            rec.params@.len() == pv.len(),
            j <= pv.len(),
            !params_fail ==> spec_parse_params(pv, j as int) == Some(ps@),
            params_fail ==> spec_parse_params(pv, pv.len() as int) is None,
            forall|k: int|
                0 <= k < ps@.len() ==> match #[trigger] ps@[k] {
                    X86SIMDType::ConstantImmediate(_, w) => 0 <= w <= 31,
                    _ => true,
                },
        decreases pv.len() - j,
    {
        if !params_fail {
            let p = &rec.params[j];
            proof {
                assert(p@ == pv[j as int]);
            }
            let e_opt: Option<&str> = match &p.etype {
                Some(s2) => Some(s2.as_str()),
                None => None,
            };
            let w_opt: Option<&str> = match &p.imm_width {
                Some(s2) => Some(s2.as_str()),
                None => None,
            };
            match parse_type_from_str(p.ptype.as_str(), e_opt, w_opt) {
                Some(t) => {
                    if let X86SIMDType::Primitive(X86BaseType::Void) = t {
                    } else {
                        ps.push(t);
                    }
                    proof {
                        assert(spec_parse_params(pv, j + 1) == Some(ps@));
                    }
                },
                None => {
                    proof {
                        assert(spec_parse_params(pv, j + 1) is None);
                        lemma_parse_params_none(pv, j + 1, pv.len() as int);
                    }
                    params_fail = true;
                },
            }
        }
        j = j + 1;
    }
    if params_fail {
        return None;
    }
    let re_opt: Option<&str> = match &rec.ret_etype {
        Some(s2) => Some(s2.as_str()),
        None => None,
    };
    let rt = match parse_type_from_str(rec.rettype.as_str(), re_opt, None) {
        Some(t) => t,
        None => {
            return None;
        },
    };
    if ps.len() > 32 {
        return Some(None);
    }
    let mut has_m64 = if let X86SIMDType::M64(_) = rt {
        true
    } else {
        false
    };
    let mut m: usize = 0;
    while m < ps.len()
        invariant
            m <= ps@.len(),
            has_m64 == ((rt is M64) || exists|k: int| 0 <= k < m && (#[trigger] ps@[k]) is M64),
        decreases ps@.len() - m,
    {
        if let X86SIMDType::M64(_) = ps[m] {
            proof {
                assert(ps@[m as int] is M64);
            }
            has_m64 = true;
        }
        m = m + 1;
    }
    if has_m64 {
        return Some(None);
    }
    let mut has_float = is_simd_type_floating_point(rt);
    let mut f: usize = 0;
    while f < ps.len()
        invariant
            f <= ps@.len(),
            has_float == (spec_is_simd_type_floating_point(rt) || exists|k: int|
                0 <= k < f && spec_is_simd_type_floating_point(#[trigger] ps@[k])),
        decreases ps@.len() - f,
    {
        if is_simd_type_floating_point(ps[f]) {
            proof {
                assert(spec_is_simd_type_floating_point(ps@[f as int]));
            }
            has_float = true;
        }
        f = f + 1;
    }
    if has_float {
        return Some(None);
    }
    Some(
        Some(
            X86SIMDIntrinsic {
                intrinsic_name: rec.name.clone(),
                return_type: rt,
                param_types: ps,
            },
        ),
    )
}

pub open spec fn x86_intrinsics_v(s: Seq<X86SIMDIntrinsic>) -> Seq<X86SIMDIntrinsicV> {
    Seq::new(s.len(), |i: int| s[i]@)
}

/// The kept intrinsics of the first `k` records, in order; `None` as soon as
/// a kept candidate's types do not parse.
pub open spec fn spec_x86_parse_recs(recs: Seq<X86XmlRecV>, k: int) -> Option<
    Seq<X86SIMDIntrinsicV>,
>
    decreases k,
{
    if k <= 0 {
        Some(Seq::empty())
    } else {
        match spec_x86_parse_recs(recs, k - 1) {
            None => None,
            Some(acc) => match spec_x86_rec_result(recs[k - 1]) {
                None => None,
                Some(ox) => match ox {
                    None => Some(acc),
                    Some(x) => Some(acc.push(x)),
                },
            },
        }
    }
}

pub proof fn lemma_parse_recs_none(recs: Seq<X86XmlRecV>, k: int, n: int)
    requires
        0 <= k <= n,
        spec_x86_parse_recs(recs, k) is None,
    ensures
        spec_x86_parse_recs(recs, n) is None,
    decreases n - k,
{
    if n > k {
        lemma_parse_recs_none(recs, k, n - 1);
    }
}

/// Read the intrinsics catalog document: every `intrinsic` element that
/// passes the filters, its type strings parsed, in document order.  `None`
/// when a kept candidate's type strings do not parse.
pub fn parse_intel_intrinsics_xml(xml: &str) -> (r: Option<Vec<X86SIMDIntrinsic>>)
    ensures
        match r {
            Some(v) => Some(x86_intrinsics_v(v@)) == spec_x86_parse_recs(
                xml_intrinsics_of(xml@),
                xml_intrinsics_of(xml@).len() as int,
            ) && forall|i: int|
                0 <= i < v@.len() ==> x86_intrinsic_sig_ok((#[trigger] v@[i])@),
            None => spec_x86_parse_recs(
                xml_intrinsics_of(xml@),
                xml_intrinsics_of(xml@).len() as int,
            ) is None,
        },
{
    let ghost recs = xml_intrinsics_of(xml@);
    let n = xml_intrinsic_count(xml);
    let mut out: Vec<X86SIMDIntrinsic> = Vec::new();
    let mut i: usize = 0;
    proof {
        assert(x86_intrinsics_v(out@) =~= Seq::<X86SIMDIntrinsicV>::empty());
    }
    while i < n
        invariant
            recs == xml_intrinsics_of(xml@),
            n == recs.len(),
            i <= n,
            spec_x86_parse_recs(recs, i as int) == Some(x86_intrinsics_v(out@)),
            forall|k: int| 0 <= k < out@.len() ==> x86_intrinsic_sig_ok((#[trigger] out@[k])@),
        decreases n - i,
    {
        let h = match xml_intrinsic_header_at(xml, i) {
            Some(h) => h,
            None => {
                proof {
                    assert(false);
                }
                return None;
            },
        };
        let cp = xml_intrinsic_cpuid_at(xml, i);
        let params = match xml_intrinsic_params_at(xml, i) {
            Some(p) => p,
            None => {
                proof {
                    assert(false);
                }
                return None;
            },
        };
        let rec = X86XmlRec {
            name: h.name,
            sequence: h.sequence,
            cpuid: cp,
            rettype: h.rettype,
            ret_etype: h.ret_etype,
            params,
        };
        proof {
            assert(rec@.params =~= recs[i as int].params);
            assert(rec@ == recs[i as int]);
        }
        match x86_rec_step(&rec) {
            Some(ox) => {
                match ox {
                    Some(x) => {
                        let ghost before = x86_intrinsics_v(out@);
                        out.push(x);
                        proof {
                            assert(x86_intrinsics_v(out@) =~= before.push(x@));
                            assert(spec_x86_parse_recs(recs, i + 1) == Some(x86_intrinsics_v(out@)));
                        }
                    },
                    None => {
                        proof {
                            assert(spec_x86_parse_recs(recs, i + 1) == Some(x86_intrinsics_v(out@)));
                        }
                    },
                }
            },
            None => {
                proof {
                    assert(spec_x86_parse_recs(recs, i + 1) is None);
                    lemma_parse_recs_none(recs, i + 1, recs.len() as int);
                }
                return None;
            },
        }
        i = i + 1;
    }
    Some(out)
}

} // verus!
