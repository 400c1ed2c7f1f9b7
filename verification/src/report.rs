//! Rendering of the end-of-processing report and of the RDH view.

use vstd::prelude::*;
use crate::rdh::Rdh;
use crate::scan::CdpPacket;
use crate::stats::StatsCollector;
use crate::text::{dec_chars, dec_u64, hex_chars, hex_u64, pad_left_chars, append_pad_left};

verus! {

/// The names of the trigger bits that are set, each preceded by a
/// space: bit 0 ORBIT, 1 HB, 3 PhT, 4 SOC, 5 EOC, 9 TF, 11 SOT, 12 EOT.
pub open spec fn trigger_flags_chars(t: u32) -> Seq<char> {
    (if t & 0x0001 != 0 {
        " ORBIT"@
    } else {
        Seq::empty()
    }) + (if t & 0x0002 != 0 {
        " HB"@
    } else {
        Seq::empty()
    }) + (if t & 0x0008 != 0 {
        " PhT"@
    } else {
        Seq::empty()
    }) + (if t & 0x0010 != 0 {
        " SOC"@
    } else {
        Seq::empty()
    }) + (if t & 0x0020 != 0 {
        " EOC"@
    } else {
        Seq::empty()
    }) + (if t & 0x0200 != 0 {
        " TF"@
    } else {
        Seq::empty()
    }) + (if t & 0x0800 != 0 {
        " SOT"@
    } else {
        Seq::empty()
    }) + (if t & 0x1000 != 0 {
        " EOT"@
    } else {
        Seq::empty()
    })
}

/// Render the names of the set trigger bits, each preceded by a space.
pub fn trigger_flags_string(t: u32) -> (r: String)
    ensures
        r@ == trigger_flags_chars(t),
{
    let mut s = String::new();
    if t & 0x0001 != 0 {
        s.append(" ORBIT");
    }
    if t & 0x0002 != 0 {
        s.append(" HB");
    }
    if t & 0x0008 != 0 {
        s.append(" PhT");
    }
    if t & 0x0010 != 0 {
        s.append(" SOC");
    }
    if t & 0x0020 != 0 {
        s.append(" EOC");
    }
    if t & 0x0200 != 0 {
        s.append(" TF");
    }
    if t & 0x0800 != 0 {
        s.append(" SOT");
    }
    if t & 0x1000 != 0 {
        s.append(" EOT");
    }
    assert(s@ =~= trigger_flags_chars(t));
    s
}

/// Each value in decimal, preceded by a space.
pub open spec fn sp_dec_list_u8(s: Seq<u8>) -> Seq<char>
    decreases s.len(),
{
    if s.len() == 0 {
        Seq::empty()
    } else {
        seq![' '] + dec_chars(s[0] as nat) + sp_dec_list_u8(s.drop_first())
    }
}

/// Render each value in decimal, preceded by a space.
pub fn sp_dec_list_u8_string(v: &Vec<u8>) -> (r: String)
    ensures
        r@ == sp_dec_list_u8(v@),
{
    let mut s = String::new();
    let n = v.len();
    let mut i: usize = 0;
    proof {
        assert(v@.skip(0) =~= v@);
        assert(s@ + sp_dec_list_u8(v@) =~= sp_dec_list_u8(v@));
    }
    while i < n
        invariant
            n == v@.len(),
            i <= n,
            s@ + sp_dec_list_u8(v@.skip(i as int)) == sp_dec_list_u8(v@),
        decreases n - i,
    {
        proof {
            assert(v@.skip(i as int)[0] == v@[i as int]);
            assert(v@.skip(i as int).drop_first() =~= v@.skip(i + 1));
        }
        s.append(" ");
        s.append(dec_u64(v[i] as u64).as_str());
        proof {
            reveal_strlit(" ");
            assert(" "@ =~= seq![' ']);
        }
        i = i + 1;
    }
    proof {
        assert(v@.skip(n as int) =~= Seq::<u8>::empty());
        assert(s@ + Seq::<char>::empty() =~= s@);
    }
    s
}

/// Each value in decimal, preceded by a space.
pub open spec fn sp_dec_list_u16(s: Seq<u16>) -> Seq<char>
    decreases s.len(),
{
    if s.len() == 0 {
        Seq::empty()
    } else {
        seq![' '] + dec_chars(s[0] as nat) + sp_dec_list_u16(s.drop_first())
    }
}

/// Render each value in decimal, preceded by a space.
pub fn sp_dec_list_u16_string(v: &Vec<u16>) -> (r: String)
    ensures
        r@ == sp_dec_list_u16(v@),
{
    let mut s = String::new();
    let n = v.len();
    let mut i: usize = 0;
    proof {
        assert(v@.skip(0) =~= v@);
        assert(s@ + sp_dec_list_u16(v@) =~= sp_dec_list_u16(v@));
    }
    while i < n
        invariant
            n == v@.len(),
            i <= n,
            s@ + sp_dec_list_u16(v@.skip(i as int)) == sp_dec_list_u16(v@),
        decreases n - i,
    {
        proof {
            assert(v@.skip(i as int)[0] == v@[i as int]);
            assert(v@.skip(i as int).drop_first() =~= v@.skip(i + 1));
        }
        s.append(" ");
        s.append(dec_u64(v[i] as u64).as_str());
        proof {
            reveal_strlit(" ");
            assert(" "@ =~= seq![' ']);
        }
        i = i + 1;
    }
    proof {
        assert(v@.skip(n as int) =~= Seq::<u16>::empty());
        assert(s@ + Seq::<char>::empty() =~= s@);
    }
    s
}

/// A stave name `L<layer>_<stave>`.
pub open spec fn stave_name_chars(layer: u8, stave: u8) -> Seq<char> {
    "L"@ + dec_chars(layer as nat) + "_"@ + dec_chars(stave as nat)
}

/// Render a stave name `L<layer>_<stave>`.
pub fn stave_name_string(layer: u8, stave: u8) -> (r: String)
    ensures
        r@ == stave_name_chars(layer, stave),
{
    let mut s = String::from_str("L");
    s.append(dec_u64(layer as u64).as_str());
    s.append("_");
    s.append(dec_u64(stave as u64).as_str());
    s
}

/// Each stave name, preceded by a space.
pub open spec fn sp_stave_list(s: Seq<(u8, u8)>) -> Seq<char>
    decreases s.len(),
{
    if s.len() == 0 {
        Seq::empty()
    } else {
        seq![' '] + stave_name_chars(s[0].0, s[0].1) + sp_stave_list(s.drop_first())
    }
}

/// Render each stave name, preceded by a space.
pub fn sp_stave_list_string(v: &Vec<(u8, u8)>) -> (r: String)
    ensures
        r@ == sp_stave_list(v@),
{
    let mut s = String::new();
    let n = v.len();
    let mut i: usize = 0;
    proof {
        assert(v@.skip(0) =~= v@);
        assert(s@ + sp_stave_list(v@) =~= sp_stave_list(v@));
    }
    while i < n
        invariant
            n == v@.len(),
            i <= n,
            s@ + sp_stave_list(v@.skip(i as int)) == sp_stave_list(v@),
        decreases n - i,
    {
        proof {
            assert(v@.skip(i as int)[0] == v@[i as int]);
            assert(v@.skip(i as int).drop_first() =~= v@.skip(i + 1));
        }
        let (layer, stave) = v[i];
        s.append(" ");
        s.append(stave_name_string(layer, stave).as_str());
        proof {
            reveal_strlit(" ");
            assert(" "@ =~= seq![' ']);
        }
        i = i + 1;
    }
    proof {
        assert(v@.skip(n as int) =~= Seq::<(u8, u8)>::empty());
        assert(s@ + Seq::<char>::empty() =~= s@);
    }
    s
}

/// One line of the summary report: a label, a value, a newline.
pub open spec fn report_line(label: Seq<char>, value: Seq<char>) -> Seq<char> {
    label + value + "\n"@
}

/// The counter lines of the summary: version, RDH, HBF and CDP counts,
/// and the payload bytes.
pub open spec fn counters_section_chars(s: StatsCollector) -> Seq<char> {
    report_line("RDH Version: "@, dec_chars(s.rdh_version as nat)) + report_line(
        "Total RDHs: "@,
        dec_chars(s.rdhs_seen as nat),
    ) + report_line("Total HBFs: "@, dec_chars(s.hbfs as nat)) + report_line(
        "Total CDPs: "@,
        dec_chars(s.cdps as nat),
    ) + report_line("Total payload bytes: "@, dec_chars(s.payload_bytes as nat))
}

/// Render the counter lines of the summary.
pub fn counters_section_string(s: &StatsCollector) -> (r: String)
    ensures
        r@ == counters_section_chars(*s),
{
    let mut out = String::new();
    out.append("RDH Version: ");
    out.append(dec_u64(s.rdh_version as u64).as_str());
    out.append("\n");
    out.append("Total RDHs: ");
    out.append(dec_u64(s.rdhs_seen).as_str());
    out.append("\n");
    out.append("Total HBFs: ");
    out.append(dec_u64(s.hbfs as u64).as_str());
    out.append("\n");
    out.append("Total CDPs: ");
    out.append(dec_u64(s.cdps as u64).as_str());
    out.append("\n");
    out.append("Total payload bytes: ");
    out.append(dec_u64(s.payload_bytes).as_str());
    out.append("\n");
    assert(out@ =~= counters_section_chars(*s));
    out
}

/// The trigger line of the summary: the trigger type of the first RDH
/// in hexadecimal, then every trigger flag seen in the run.
pub open spec fn trigger_section_chars(s: StatsCollector) -> Seq<char> {
    report_line(
        "Trigger Type: "@,
        "0x"@ + hex_chars((match s.first_trigger {
            Some(t) => t,
            None => 0,
        }) as nat) + " ["@ + trigger_flags_chars(s.trigger_union) + " ]"@,
    )
}

/// Render the trigger line of the summary.
pub fn trigger_section_string(s: &StatsCollector) -> (r: String)
    ensures
        r@ == trigger_section_chars(*s),
{
    let mut out = String::from_str("Trigger Type: ");
    out.append("0x");
    let first = match s.first_trigger {
        Some(t) => t,
        None => 0,
    };
    out.append(hex_u64(first as u64).as_str());
    out.append(" [");
    out.append(trigger_flags_string(s.trigger_union).as_str());
    out.append(" ]");
    out.append("\n");
    assert(out@ =~= trigger_section_chars(*s));
    out
}

/// The inventory lines of the summary: the links and FEE IDs observed,
/// and, when asked for, the layers and staves.
pub open spec fn inventory_section_chars(s: StatsCollector, with_staves: bool) -> Seq<char> {
    report_line("Links observed:"@, sp_dec_list_u8(s.links_observed@)) + report_line(
        "FEE IDs seen:"@,
        sp_dec_list_u16(s.fee_ids_observed@),
    ) + (if with_staves {
        report_line("Layers and staves:"@, sp_stave_list(s.layer_staves@))
    } else {
        Seq::empty()
    })
}

/// Render the inventory lines of the summary.
pub fn inventory_section_string(s: &StatsCollector, with_staves: bool) -> (r: String)
    ensures
        r@ == inventory_section_chars(*s, with_staves),
{
    let mut out = String::new();
    out.append("Links observed:");
    out.append(sp_dec_list_u8_string(&s.links_observed).as_str());
    out.append("\n");
    out.append("FEE IDs seen:");
    out.append(sp_dec_list_u16_string(&s.fee_ids_observed).as_str());
    out.append("\n");
    if with_staves {
        out.append("Layers and staves:");
        out.append(sp_stave_list_string(&s.layer_staves).as_str());
        out.append("\n");
    }
    assert(out@ =~= inventory_section_chars(*s, with_staves));
    out
}

/// The global summary: the counters, the trigger line, and the
/// inventories. The layer and stave inventory is rendered only when
/// asked for (it is left out of the filter report).
pub open spec fn global_report_chars(s: StatsCollector, with_staves: bool) -> Seq<char> {
    counters_section_chars(s) + trigger_section_chars(s) + inventory_section_chars(s, with_staves)
}

/// Render the global summary.
pub fn global_report_string(s: &StatsCollector, with_staves: bool) -> (r: String)
    ensures
        r@ == global_report_chars(*s, with_staves),
{
    let mut out = counters_section_string(s);
    out.append(trigger_section_string(s).as_str());
    out.append(inventory_section_string(s, with_staves).as_str());
    out
}

/// One row of the filter-stats table.
pub open spec fn filter_row(label: Seq<char>, value: Seq<char>) -> Seq<char> {
    "| "@ + label + pad_left_chars(value, 20) + " |\n"@
}

/// Render one row of the filter-stats table.
pub fn filter_row_string(label: &str, value: &str) -> (r: String)
    ensures
        r@ == filter_row(label@, value@),
{
    let mut out = String::from_str("| ");
    out.append(label);
    append_pad_left(&mut out, value, 20);
    out.append(" |\n");
    out
}

/// The fixed-width header of the RDH view.
pub fn rdh_view_header() -> (r: String)
    ensures
        r@ == "Memory offset   Version  Header size  FEE ID  Prio  System  Offset next  Memory size  Link  Packet  Page  Stop  Trigger  Data format\n"@,
{
    String::from_str(
        "Memory offset   Version  Header size  FEE ID  Prio  System  Offset next  Memory size  Link  Packet  Page  Stop  Trigger  Data format\n",
    )
}

/// One line of the RDH view: the hex memory offset, then the header's
/// fields in fixed-width columns.
pub open spec fn rdh_view_line_chars(r: Rdh, mem_pos: u64) -> Seq<char> {
    pad_left_chars(hex_chars(mem_pos as nat), 8) + ": "@ + pad_left_chars(
        dec_chars(r.header_id as nat),
        7,
    ) + pad_left_chars(dec_chars(r.header_size as nat), 8) + pad_left_chars(
        dec_chars(r.fee_id as nat),
        8,
    ) + pad_left_chars(dec_chars(r.priority_bit as nat), 6) + pad_left_chars(
        dec_chars(r.system_id as nat),
        8,
    ) + pad_left_chars(dec_chars(r.offset_to_next as nat), 10) + pad_left_chars(
        dec_chars(r.memory_size as nat),
        12,
    ) + pad_left_chars(dec_chars(r.link_id as nat), 6) + pad_left_chars(
        dec_chars(r.packet_counter as nat),
        8,
    ) + pad_left_chars(dec_chars(r.pages_counter as nat), 6) + pad_left_chars(
        dec_chars(r.stop_bit as nat),
        6,
    ) + " 0x"@ + pad_left_chars(hex_chars(r.trigger_type as nat), 8) + pad_left_chars(
        dec_chars(r.dataformat as nat),
        8,
    ) + "\n"@
}

/// Render one line of the RDH view.
pub fn rdh_view_line(r: &Rdh, mem_pos: u64) -> (out: String)
    ensures
        out@ == rdh_view_line_chars(*r, mem_pos),
{
    let mut out = String::new();
    append_pad_left(&mut out, hex_u64(mem_pos).as_str(), 8);
    out.append(": ");
    append_pad_left(&mut out, dec_u64(r.header_id as u64).as_str(), 7);
    append_pad_left(&mut out, dec_u64(r.header_size as u64).as_str(), 8);
    append_pad_left(&mut out, dec_u64(r.fee_id as u64).as_str(), 8);
    append_pad_left(&mut out, dec_u64(r.priority_bit as u64).as_str(), 6);
    append_pad_left(&mut out, dec_u64(r.system_id as u64).as_str(), 8);
    append_pad_left(&mut out, dec_u64(r.offset_to_next as u64).as_str(), 10);
    append_pad_left(&mut out, dec_u64(r.memory_size as u64).as_str(), 12);
    append_pad_left(&mut out, dec_u64(r.link_id as u64).as_str(), 6);
    append_pad_left(&mut out, dec_u64(r.packet_counter as u64).as_str(), 8);
    append_pad_left(&mut out, dec_u64(r.pages_counter as u64).as_str(), 6);
    append_pad_left(&mut out, dec_u64(r.stop_bit as u64).as_str(), 6);
    out.append(" 0x");
    append_pad_left(&mut out, hex_u64(r.trigger_type as u64).as_str(), 8);
    append_pad_left(&mut out, dec_u64(r.dataformat as u64).as_str(), 8);
    out.append("\n");
    assert(out@ =~= rdh_view_line_chars(*r, mem_pos));
    out
}

/// The whole RDH view of a packet list: the header row, then one line
/// per RDH.
pub open spec fn rdh_view_lines_chars(ps: Seq<crate::scan::PacketSpec>) -> Seq<char>
    decreases ps.len(),
{
    if ps.len() == 0 {
        Seq::empty()
    } else {
        rdh_view_line_chars(ps[0].rdh, ps[0].mem_pos as u64) + rdh_view_lines_chars(ps.drop_first())
    }
}

/// Render the RDH view: one header row, then one line per RDH with its
/// memory offset.
pub fn rdh_view(packets: &Vec<CdpPacket>) -> (out: String)
    ensures
        out@ == "Memory offset   Version  Header size  FEE ID  Prio  System  Offset next  Memory size  Link  Packet  Page  Stop  Trigger  Data format\n"@
            + rdh_view_lines_chars(packets@.map_values(|p: CdpPacket| p.pk())),
{
    let ghost ps = packets@.map_values(|p: CdpPacket| p.pk());
    let mut out = rdh_view_header();
    let ghost header = out@;
    let n = packets.len();
    let mut i: usize = 0;
    proof {
        assert(ps.skip(0) =~= ps);
        assert(out@ + rdh_view_lines_chars(ps) =~= header + rdh_view_lines_chars(ps));
    }
    while i < n
        invariant
            n == packets@.len(),
            ps == packets@.map_values(|p: CdpPacket| p.pk()),
            i <= n,
            out@ + rdh_view_lines_chars(ps.skip(i as int)) == header + rdh_view_lines_chars(ps),
        decreases n - i,
    {
        proof {
            assert(ps.skip(i as int)[0] == ps[i as int]);
            assert(ps.skip(i as int).drop_first() =~= ps.skip(i + 1));
        }
        let line = rdh_view_line(&packets[i].rdh, packets[i].mem_pos);
        out.append(line.as_str());
        i = i + 1;
    }
    proof {
        assert(ps.skip(n as int) =~= Seq::<crate::scan::PacketSpec>::empty());
        assert(out@ + Seq::<char>::empty() =~= out@);
    }
    out
}

} // verus!
