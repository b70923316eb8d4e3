use crate::error::QuoteParseError;
use crate::header::put_bytes;
use crate::take::{le_u16, le_u16_at, le_u32, rest_of, take16, take48, take64, take8};
use vstd::prelude::*;

verus! {

/// Length of the body record common to all quote versions.
pub const V4_QUOTE_BODY_LENGTH: usize = 584;

/// Length of a version 5 quote body, as the signed-data window counts it.
pub const V5_QUOTE_BODY_LENGTH: usize = 648;

/// Version of TDX used to create the quote.
#[derive(Debug, Clone, Copy, PartialEq, Eq, Structural)]
pub enum TDXVersion {
    One,
    OnePointFive,
}

impl TDXVersion {
    /// The body type that stands for this TDX version in a version 5 quote.
    pub open spec fn spec_raw(self) -> u16 {
        match self {
            TDXVersion::One => 2,
            TDXVersion::OnePointFive => 3,
        }
    }

    /// The body type that stands for this TDX version in a version 5 quote.
    pub fn raw(&self) -> (r: u16)
        ensures
            r == self.spec_raw(),
    {
        match self {
            TDXVersion::One => 2,
            TDXVersion::OnePointFive => 3,
        }
    }

    /// The TDX version that the version 5 body type `value` stands for.
    pub fn try_from(value: u16) -> (r: Result<TDXVersion, QuoteParseError>)
        ensures
            match r {
                Ok(t) => t.spec_raw() == value,
                Err(e) => value != 2 && value != 3 && e == QuoteParseError::UnknownQuoteVersion,
            },
    {
        match value {
            2 => Ok(TDXVersion::One),
            3 => Ok(TDXVersion::OnePointFive),
            _ => Err(QuoteParseError::UnknownQuoteVersion),
        }
    }
}

/// A TDX quote body.
#[derive(Debug, Clone, Copy, PartialEq, Eq)]
pub struct QuoteBody {
    pub tdx_version: TDXVersion,
    pub tee_tcb_svn: [u8; 16],
    pub mrseam: [u8; 48],
    pub mrsignerseam: [u8; 48],
    pub seamattributes: [u8; 8],
    pub tdattributes: [u8; 8],
    pub xfam: [u8; 8],
    /// Build-time measurement
    pub mrtd: [u8; 48],
    pub mrconfigid: [u8; 48],
    pub mrowner: [u8; 48],
    pub mrownerconfig: [u8; 48],
    /// Runtime extendable measurement register
    pub rtmr0: [u8; 48],
    pub rtmr1: [u8; 48],
    pub rtmr2: [u8; 48],
    pub rtmr3: [u8; 48],
    /// User defined input data
    pub reportdata: [u8; 64],
    /// Present for TDX 1.5 only
    pub tee_tcb_svn_2: Option<[u8; 16]>,
    /// Present for TDX 1.5 only
    pub mrservicetd: Option<[u8; 48]>,
}

impl QuoteBody {
    /// The optional fields are present exactly for TDX 1.5.
    pub open spec fn wf(self) -> bool {
        match self.tdx_version {
            TDXVersion::One => self.tee_tcb_svn_2 is None && self.mrservicetd is None,
            TDXVersion::OnePointFive => self.tee_tcb_svn_2 is Some && self.mrservicetd is Some,
        }
    }
}

/// The 584 bytes of the record that every quote body holds.
pub open spec fn fixed_encoding(b: QuoteBody) -> Seq<u8> {
    b.tee_tcb_svn@ + b.mrseam@ + b.mrsignerseam@ + b.seamattributes@ + b.tdattributes@ + b.xfam@
        + b.mrtd@ + b.mrconfigid@ + b.mrowner@ + b.mrownerconfig@ + b.rtmr0@ + b.rtmr1@ + b.rtmr2@
        + b.rtmr3@ + b.reportdata@
}

/// The bytes of all fields of `b`: the common record, then the TDX 1.5 fields if present.
pub open spec fn fields_encoding(b: QuoteBody) -> Seq<u8> {
    match (b.tee_tcb_svn_2, b.mrservicetd) {
        (Some(svn), Some(td)) => fixed_encoding(b) + svn@ + td@,
        _ => fixed_encoding(b),
    }
}

/// The number of bytes that a body of quote version `version` takes at the start of `s`.
pub open spec fn body_len(s: Seq<u8>, version: u16) -> int {
    if version == 4 {
        584
    } else if le_u16_at(s, 0) == 3 {
        654
    } else {
        590
    }
}

/// The error, if any, that decoding a body of quote version `version` from the start of `s` meets.
pub open spec fn body_error(s: Seq<u8>, version: u16) -> Option<QuoteParseError> {
    if version == 4 {
        if s.len() < 584 {
            Some(QuoteParseError::Parse)
        } else {
            None
        }
    } else if version == 5 {
        if s.len() < 6 {
            Some(QuoteParseError::Parse)
        } else if le_u16_at(s, 0) != 2 && le_u16_at(s, 0) != 3 {
            Some(QuoteParseError::UnknownQuoteVersion)
        } else if s.len() < body_len(s, version) {
            Some(QuoteParseError::Parse)
        } else {
            None
        }
    } else {
        Some(QuoteParseError::UnknownQuoteVersion)
    }
}

/// Whether `b` is the body of quote version `version` that `s` starts with.
pub open spec fn body_matches(b: QuoteBody, s: Seq<u8>, version: u16) -> bool {
    &&& version == 4 || version == 5
    &&& b.wf()
    &&& version == 4 ==> b.tdx_version == TDXVersion::One && fields_encoding(b) == s.subrange(
        0,
        584,
    )
    &&& version == 5 ==> b.tdx_version.spec_raw() == le_u16_at(s, 0) && fields_encoding(b)
        == s.subrange(6, body_len(s, version))
}

/// Two well-formed bodies of one TDX version with the same field bytes are the same body.
pub proof fn lemma_fields_encoding_injective(b1: QuoteBody, b2: QuoteBody)
    requires
        b1.wf(),
        b2.wf(),
        b1.tdx_version == b2.tdx_version,
        fields_encoding(b1) == fields_encoding(b2),
    ensures
        b1 == b2,
{
    let e = fields_encoding(b1);
    assert(b1.tee_tcb_svn@ =~= e.subrange(0, 16) && b2.tee_tcb_svn@ =~= e.subrange(0, 16));
    assert(b1.tee_tcb_svn =~= b2.tee_tcb_svn);
    assert(b1.mrseam@ =~= e.subrange(16, 64) && b2.mrseam@ =~= e.subrange(16, 64));
    assert(b1.mrseam =~= b2.mrseam);
    assert(b1.mrsignerseam@ =~= e.subrange(64, 112) && b2.mrsignerseam@ =~= e.subrange(64, 112));
    assert(b1.mrsignerseam =~= b2.mrsignerseam);
    assert(b1.seamattributes@ =~= e.subrange(112, 120) && b2.seamattributes@ =~= e.subrange(112, 120));
    assert(b1.seamattributes =~= b2.seamattributes);
    assert(b1.tdattributes@ =~= e.subrange(120, 128) && b2.tdattributes@ =~= e.subrange(120, 128));
    assert(b1.tdattributes =~= b2.tdattributes);
    assert(b1.xfam@ =~= e.subrange(128, 136) && b2.xfam@ =~= e.subrange(128, 136));
    assert(b1.xfam =~= b2.xfam);
    assert(b1.mrtd@ =~= e.subrange(136, 184) && b2.mrtd@ =~= e.subrange(136, 184));
    assert(b1.mrtd =~= b2.mrtd);
    assert(b1.mrconfigid@ =~= e.subrange(184, 232) && b2.mrconfigid@ =~= e.subrange(184, 232));
    assert(b1.mrconfigid =~= b2.mrconfigid);
    assert(b1.mrowner@ =~= e.subrange(232, 280) && b2.mrowner@ =~= e.subrange(232, 280));
    assert(b1.mrowner =~= b2.mrowner);
    assert(b1.mrownerconfig@ =~= e.subrange(280, 328) && b2.mrownerconfig@ =~= e.subrange(280, 328));
    assert(b1.mrownerconfig =~= b2.mrownerconfig);
    assert(b1.rtmr0@ =~= e.subrange(328, 376) && b2.rtmr0@ =~= e.subrange(328, 376));
    assert(b1.rtmr0 =~= b2.rtmr0);
    assert(b1.rtmr1@ =~= e.subrange(376, 424) && b2.rtmr1@ =~= e.subrange(376, 424));
    assert(b1.rtmr1 =~= b2.rtmr1);
    assert(b1.rtmr2@ =~= e.subrange(424, 472) && b2.rtmr2@ =~= e.subrange(424, 472));
    assert(b1.rtmr2 =~= b2.rtmr2);
    assert(b1.rtmr3@ =~= e.subrange(472, 520) && b2.rtmr3@ =~= e.subrange(472, 520));
    assert(b1.rtmr3 =~= b2.rtmr3);
    assert(b1.reportdata@ =~= e.subrange(520, 584) && b2.reportdata@ =~= e.subrange(520, 584));
    assert(b1.reportdata =~= b2.reportdata);
    if b1.tdx_version == TDXVersion::OnePointFive {
        let svn1 = b1.tee_tcb_svn_2.unwrap();
        let svn2 = b2.tee_tcb_svn_2.unwrap();
        let td1 = b1.mrservicetd.unwrap();
        let td2 = b2.mrservicetd.unwrap();
        assert(svn1@ =~= e.subrange(584, 600) && svn2@ =~= e.subrange(584, 600));
        assert(td1@ =~= e.subrange(600, 648) && td2@ =~= e.subrange(600, 648));
        assert(svn1 =~= svn2);
        assert(td1 =~= td2);
    }
}

/// Decodes the 584-byte record common to all bodies, leaving the TDX 1.5 fields absent.
pub fn basic_body_parser(input: &[u8]) -> (r: Result<(&[u8], QuoteBody), QuoteParseError>)
    ensures
        match r {
            Ok((rest, b)) => {
                &&& input@.len() >= 584
                &&& b.tdx_version == TDXVersion::One
                &&& b.tee_tcb_svn_2 is None
                &&& b.mrservicetd is None
                &&& fixed_encoding(b) == input@.subrange(0, 584)
                &&& rest@ == rest_of(input@, 584)
            },
            Err(e) => input@.len() < 584 && e == QuoteParseError::Parse,
        },
{
    if input.len() < V4_QUOTE_BODY_LENGTH {
        return Err(QuoteParseError::Parse);
    }
    let (rest, tee_tcb_svn) = take16(input)?;
    let (rest, mrseam) = take48(rest)?;
    let (rest, mrsignerseam) = take48(rest)?;
    let (rest, seamattributes) = take8(rest)?;
    let (rest, tdattributes) = take8(rest)?;
    let (rest, xfam) = take8(rest)?;
    let (rest, mrtd) = take48(rest)?;
    let (rest, mrconfigid) = take48(rest)?;
    let (rest, mrowner) = take48(rest)?;
    let (rest, mrownerconfig) = take48(rest)?;
    let (rest, rtmr0) = take48(rest)?;
    let (rest, rtmr1) = take48(rest)?;
    let (rest, rtmr2) = take48(rest)?;
    let (rest, rtmr3) = take48(rest)?;
    let (rest, reportdata) = take64(rest)?;
    let b = QuoteBody {
        tdx_version: TDXVersion::One,
        tee_tcb_svn,
        mrseam,
        mrsignerseam,
        seamattributes,
        tdattributes,
        xfam,
        mrtd,
        mrconfigid,
        mrowner,
        mrownerconfig,
        rtmr0,
        rtmr1,
        rtmr2,
        rtmr3,
        reportdata,
        tee_tcb_svn_2: None,
        mrservicetd: None,
    };
    assert(fixed_encoding(b) =~= input@.subrange(0, 584));
    assert(rest@ =~= rest_of(input@, 584));
    Ok((rest, b))
}

/// Decodes the body of a quote of version `version`, returning the bytes that follow it.
pub fn body_parser(input: &[u8], version: u16) -> (r: Result<(&[u8], QuoteBody), QuoteParseError>)
    ensures
        match r {
            Ok((rest, b)) => body_error(input@, version) is None && body_matches(
                b,
                input@,
                version,
            ) && rest@ == rest_of(input@, body_len(input@, version)),
            Err(e) => body_error(input@, version) == Some(e),
        },
{
    let (start, tdx_version) = if version == 4 {
        (input, TDXVersion::One)
    } else if version == 5 {
        if input.len() < 6 {
            return Err(QuoteParseError::Parse);
        }
        let (rest, body_type) = le_u16(input)?;
        let (rest, _body_size) = le_u32(rest)?;
        (rest, TDXVersion::try_from(body_type)?)
    } else {
        return Err(QuoteParseError::UnknownQuoteVersion);
    };
    let (rest, mut body) = basic_body_parser(start)?;
    if tdx_version == TDXVersion::OnePointFive {
        let (rest, tee_tcb_svn_2) = take16(rest)?;
        let (rest, mrservicetd) = take48(rest)?;
        body.tdx_version = TDXVersion::OnePointFive;
        body.tee_tcb_svn_2 = Some(tee_tcb_svn_2);
        body.mrservicetd = Some(mrservicetd);
        assert(fields_encoding(body) =~= input@.subrange(6, 654));
        assert(rest@ =~= rest_of(input@, 654));
        Ok((rest, body))
    } else {
        assert(version == 5 ==> fields_encoding(body) =~= input@.subrange(6, 590));
        assert(version == 5 ==> rest@ =~= rest_of(input@, 590));
        assert(version == 4 ==> rest@ =~= rest_of(input@, 584));
        Ok((rest, body))
    }
}

/// Serializes the 584-byte record of a body, as a version 4 quote holds it.
pub fn quote_body_v4_serializer(input: &QuoteBody) -> (r: [u8; 584])
    ensures
        r@ == fixed_encoding(*input),
{
    let mut output = [1u8; 584];
    put_bytes(&mut output, 0, &input.tee_tcb_svn);
    put_bytes(&mut output, 16, &input.mrseam);
    put_bytes(&mut output, 64, &input.mrsignerseam);
    put_bytes(&mut output, 112, &input.seamattributes);
    put_bytes(&mut output, 120, &input.tdattributes);
    put_bytes(&mut output, 128, &input.xfam);
    put_bytes(&mut output, 136, &input.mrtd);
    put_bytes(&mut output, 184, &input.mrconfigid);
    put_bytes(&mut output, 232, &input.mrowner);
    put_bytes(&mut output, 280, &input.mrownerconfig);
    put_bytes(&mut output, 328, &input.rtmr0);
    put_bytes(&mut output, 376, &input.rtmr1);
    put_bytes(&mut output, 424, &input.rtmr2);
    put_bytes(&mut output, 472, &input.rtmr3);
    put_bytes(&mut output, 520, &input.reportdata);
    assert(output@ =~= fixed_encoding(*input));
    output
}

} // verus!
