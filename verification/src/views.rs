//! The ITS readout-frame view: the packets of the stream with their
//! payload decoded into labelled status words.

use vstd::prelude::*;
use crate::its::{spec_its_word, its_word_of, ItsWord};
use crate::report::rdh_view_line_chars;
use crate::scan::{CdpPacket, PacketSpec};
use crate::text::{dec_u64, hex_u64};

verus! {

/// The label of one 10-byte payload word, by its marker byte.
pub open spec fn word_label_chars(m: u8) -> Seq<char> {
    match spec_its_word(m) {
        ItsWord::Ihw => "  IHW\n"@,
        ItsWord::Tdh => "  TDH\n"@,
        ItsWord::Tdt => "  TDT\n"@,
        ItsWord::Ddw0 => "  DDW\n"@,
        ItsWord::Data(_) => "  DATA ["@ + crate::text::hex_chars(m as nat) + "]\n"@,
        ItsWord::Cdw => "  CDW\n"@,
        ItsWord::Unknown => "  (unknown word)\n"@,
    }
}

/// The labels of the first `w` complete words of a payload.
pub open spec fn word_labels_chars(p: Seq<u8>, w: int) -> Seq<char>
    decreases w,
{
    if w <= 0 {
        Seq::empty()
    } else {
        word_labels_chars(p, w - 1) + word_label_chars(p[(w - 1) * 10 + 9])
    }
}

/// One packet of the view: its RDH line, then one label per payload
/// word.
pub open spec fn frame_view_chars(p: PacketSpec) -> Seq<char> {
    "RDH\n"@ + rdh_view_line_chars(p.rdh, p.mem_pos as u64) + word_labels_chars(
        p.payload,
        p.payload.len() as int / 10,
    )
}

/// The whole view of a packet list.
pub open spec fn frames_view_chars(ps: Seq<PacketSpec>) -> Seq<char>
    decreases ps.len(),
{
    if ps.len() == 0 {
        Seq::empty()
    } else {
        frame_view_chars(ps[0]) + frames_view_chars(ps.drop_first())
    }
}

/// Render the ITS readout-frame view: for each packet its RDH line,
/// then one labelled line per 10-byte payload word (IHW, TDH, data
/// words with their lane, TDT, DDW).
#[verifier::rlimit(80)]
pub fn its_frames_view(packets: &Vec<CdpPacket>) -> (out: String)
    ensures
        out@ == frames_view_chars(packets@.map_values(|p: CdpPacket| p.pk())),
{
    let ghost ps = packets@.map_values(|p: CdpPacket| p.pk());
    let mut out = String::new();
    let n = packets.len();
    let mut i: usize = 0;
    proof {
        assert(ps.skip(0) =~= ps);
        assert(out@ + frames_view_chars(ps) =~= frames_view_chars(ps));
    }
    while i < n
        invariant
            n == packets@.len(),
            ps == packets@.map_values(|p: CdpPacket| p.pk()),
            i <= n,
            out@ + frames_view_chars(ps.skip(i as int)) == frames_view_chars(ps),
        decreases n - i,
    {
        proof {
            assert(ps.skip(i as int)[0] == ps[i as int]);
            assert(ps.skip(i as int).drop_first() =~= ps.skip(i + 1));
        }
        out.append("RDH\n");
        let line = crate::report::rdh_view_line(&packets[i].rdh, packets[i].mem_pos);
        out.append(line.as_str());
        let plen = packets[i].payload.len();
        let n_words = plen / 10;
        let ghost pay = packets@[i as int].payload@;
        let mut w: usize = 0;
        let ghost out_before = out@;
        while w < n_words
            invariant
                i < packets@.len(),
                ps == packets@.map_values(|p: CdpPacket| p.pk()),
                pay == packets@[i as int].payload@,
                plen == pay.len(),
                n_words == pay.len() as int / 10,
                w <= n_words,
                out@ == out_before + word_labels_chars(pay, w as int),
            decreases n_words - w,
        {
            proof {
                vstd::arithmetic::div_mod::lemma_fundamental_div_mod(pay.len() as int, 10);
                assert(w * 10 + 10 <= pay.len()) by (nonlinear_arith)
                    requires
                        w < n_words,
                        n_words == pay.len() as int / 10,
                        pay.len() as int == 10 * (pay.len() as int / 10) + (pay.len() as int % 10),
                        0 <= pay.len() as int % 10 < 10,
                ;
            }
            let marker = packets[i].payload[w * 10 + 9];
            match its_word_of(marker) {
                ItsWord::Ihw => out.append("  IHW\n"),
                ItsWord::Tdh => out.append("  TDH\n"),
                ItsWord::Tdt => out.append("  TDT\n"),
                ItsWord::Ddw0 => out.append("  DDW\n"),
                ItsWord::Data(_) => {
                    out.append("  DATA [");
                    out.append(crate::text::hex_u64(marker as u64).as_str());
                    out.append("]\n");
                },
                ItsWord::Cdw => out.append("  CDW\n"),
                ItsWord::Unknown => out.append("  (unknown word)\n"),
            }
            proof {
                assert((w + 1) * 10 == w * 10 + 10) by (nonlinear_arith);
                assert(out@ =~= out_before + word_labels_chars(pay, w + 1));
            }
            w = w + 1;
        }
        i = i + 1;
    }
    proof {
        assert(ps.skip(n as int) =~= Seq::<PacketSpec>::empty());
        assert(out@ + Seq::<char>::empty() =~= out@);
    }
    out
}

} // verus!
