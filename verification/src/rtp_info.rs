//! What the first packets of a stream are, as the `RTP-Info` header tells.

use vstd::prelude::*;

use crate::headers::decimal_digits;
use crate::url::{parsed_url, Url, UrlView};

verus! {

/// What RTSP 1.0 tells of a stream, as it is seen in contracts.
pub ghost struct RtpInfoView {
    pub uri: UrlView,
    pub seq: Option<u16>,
    pub rtptime: Option<u32>,
}

/// What RTSP 1.0 tells of a stream: the sequence number and the time of its first packet.
pub struct RtpInfo {
    pub uri: Url,
    pub seq: Option<u16>,
    pub rtptime: Option<u32>,
}

/// What is told of one source of a stream, as it is seen in contracts.
pub ghost struct SsrcInfoView {
    pub ssrc: u32,
    pub seq: Option<u16>,
    pub rtptime: Option<u32>,
    pub others: Seq<(Seq<char>, Option<Seq<char>>)>,
}

/// What is told of one source of a stream: the sequence number and the time of its first packet,
/// and other parameters.
pub struct SsrcInfo {
    pub ssrc: u32,
    pub seq: Option<u16>,
    pub rtptime: Option<u32>,
    pub others: Vec<(String, Option<String>)>,
}

/// What RTSP 2.0 tells of a stream, as it is seen in contracts.
pub ghost struct StreamInfoView {
    pub uri: UrlView,
    pub ssrc_infos: Seq<SsrcInfoView>,
}

/// What RTSP 2.0 tells of a stream: it may have several sources.
pub struct StreamInfo {
    pub uri: Url,
    pub ssrc_infos: Vec<SsrcInfo>,
}

/// What is told of all streams, as it is seen in contracts.
pub ghost enum RtpInfosView {
    V1(Seq<RtpInfoView>),
    V2(Seq<StreamInfoView>),
}

/// What is told of all streams, in the form of one of the versions.
pub enum RtpInfos {
    V1(Vec<RtpInfo>),
    V2(Vec<StreamInfo>),
}

impl RtpInfo {
    /// What is told of the stream.
    pub open spec fn view(self) -> RtpInfoView {
        RtpInfoView { uri: self.uri@, seq: self.seq, rtptime: self.rtptime }
    }
}

impl SsrcInfo {
    /// What is told of the source.
    pub open spec fn view(self) -> SsrcInfoView {
        SsrcInfoView {
            ssrc: self.ssrc,
            seq: self.seq,
            rtptime: self.rtptime,
            others: self.others@.map_values(
                |other: (String, Option<String>)|
                    (
                        other.0@,
                        match other.1 {
                            Some(value) => Some(value@),
                            None => None,
                        },
                    ),
            ),
        }
    }
}

impl StreamInfo {
    /// What is told of the stream.
    pub open spec fn view(self) -> StreamInfoView {
        StreamInfoView {
            uri: self.uri@,
            ssrc_infos: self.ssrc_infos@.map_values(|info: SsrcInfo| info@),
        }
    }
}

/// What is told of the streams.
pub open spec fn rtp_info_views(infos: Seq<RtpInfo>) -> Seq<RtpInfoView> {
    infos.map_values(|info: RtpInfo| info@)
}

/// What is told of the streams.
pub open spec fn stream_info_views(infos: Seq<StreamInfo>) -> Seq<StreamInfoView> {
    infos.map_values(|info: StreamInfo| info@)
}

/// A stream with one source, as RTSP 1.0 tells of it.
pub open spec fn single_source(info: StreamInfoView) -> RtpInfoView {
    RtpInfoView {
        uri: info.uri,
        seq: info.ssrc_infos[0].seq,
        rtptime: info.ssrc_infos[0].rtptime,
    }
}

impl RtpInfosView {
    /// The same in the form of RTSP 1.0, which has it if every stream has a single source.
    pub open spec fn into_v1(self) -> Option<RtpInfosView> {
        match self {
            RtpInfosView::V1(_) => Some(self),
            RtpInfosView::V2(infos) => if forall|i: int|
                0 <= i < infos.len() ==> (#[trigger] infos[i]).ssrc_infos.len() == 1 {
                Some(RtpInfosView::V1(infos.map_values(|info: StreamInfoView| single_source(info))))
            } else {
                None
            },
        }
    }

    /// Whether the URI of every stream is one.
    pub open spec fn has_uris(self) -> bool {
        match self {
            RtpInfosView::V1(infos) => forall|i: int|
                0 <= i < infos.len() ==> parsed_url((#[trigger] infos[i]).uri.text) is Some,
            RtpInfosView::V2(infos) => forall|i: int|
                0 <= i < infos.len() ==> parsed_url((#[trigger] infos[i]).uri.text) is Some,
        }
    }
}

/// A number with its name, or nothing without a number.
pub open spec fn optional_number(name: Seq<char>, number: Option<nat>) -> Seq<char> {
    match number {
        Some(number) => name + decimal_digits(number),
        None => Seq::empty(),
    }
}

/// What RTSP 1.0 tells of a stream, as it is written.
pub open spec fn rtp_info_text(info: RtpInfoView) -> Seq<char> {
    let seq = match info.seq {
        Some(seq) => Some(seq as nat),
        None => None,
    };
    let rtptime = match info.rtptime {
        Some(rtptime) => Some(rtptime as nat),
        None => None,
    };
    "url="@ + (parsed_url(info.uri.text)->0).text + optional_number(";seq="@, seq)
        + optional_number(";rtptime="@, rtptime)
}

/// What RTSP 1.0 tells of all streams, as it is written.
pub open spec fn v1_text(infos: Seq<RtpInfoView>) -> Seq<char>
    decreases infos.len(),
{
    if infos.len() == 0 {
        Seq::empty()
    } else if infos.len() == 1 {
        rtp_info_text(infos[0])
    } else {
        v1_text(infos.drop_last()) + ","@ + rtp_info_text(infos.last())
    }
}

/// What RTSP 2.0 tells of all streams, as it is written.
pub uninterp spec fn v2_text(infos: Seq<StreamInfoView>) -> Seq<char>;

impl RtpInfosView {
    /// What is told of all streams, as it is written.
    pub open spec fn text(self) -> Seq<char> {
        match self {
            RtpInfosView::V1(infos) => v1_text(infos),
            RtpInfosView::V2(infos) => v2_text(infos),
        }
    }
}

impl RtpInfos {
    /// What is told of all streams.
    pub open spec fn view(self) -> RtpInfosView {
        match self {
            RtpInfos::V1(infos) => RtpInfosView::V1(rtp_info_views(infos@)),
            RtpInfos::V2(infos) => RtpInfosView::V2(stream_info_views(infos@)),
        }
    }

    /// Gives it the form of RTSP 1.0. The sources are lost then. Fails if a stream has not exactly
    /// one of them.
    pub fn try_into_v1(self) -> (r: Result<RtpInfos, RtpInfos>)
        ensures
            match self@.into_v1() {
                Some(infos) => r matches Ok(i) && i@ == infos,
                None => r == Err::<RtpInfos, RtpInfos>(self),
            },
    {
        let infos = match self {
            RtpInfos::V1(infos) => return Ok(RtpInfos::V1(infos)),
            RtpInfos::V2(infos) => infos,
        };
        let ghost all = stream_info_views(infos@);
        let mut single: Vec<RtpInfo> = Vec::new();
        let mut i: usize = 0;
        while i < infos.len()
            invariant
                all == stream_info_views(infos@),
                self@ == RtpInfosView::V2(all),
                self == RtpInfos::V2(infos),
                i <= infos@.len(),
                forall|j: int| 0 <= j < i ==> (#[trigger] all[j]).ssrc_infos.len() == 1,
                rtp_info_views(single@) == all.take(i as int).map_values(
                    |info: StreamInfoView| single_source(info),
                ),
            decreases infos.len() - i,
        {
            let info = &infos[i];
            proof {
                assert(all[i as int] == info@);
            }
            if info.ssrc_infos.len() != 1 {
                return Err(RtpInfos::V2(infos));
            }
            let ghost before = single@;
            single.push(
                RtpInfo {
                    uri: info.uri.copy(),
                    seq: info.ssrc_infos[0].seq,
                    rtptime: info.ssrc_infos[0].rtptime,
                },
            );
            proof {
                assert(all.take(i + 1) =~= all.take(i as int).push(all[i as int]));
                assert(rtp_info_views(single@) =~= rtp_info_views(before).push(
                    single_source(all[i as int]),
                ));
                assert(rtp_info_views(single@) =~= all.take(i + 1).map_values(
                    |info: StreamInfoView| single_source(info),
                ));
            }
            i += 1;
        }
        proof {
            assert(all.take(i as int) =~= all);
        }
        Ok(RtpInfos::V1(single))
    }
}

} // verus!
