//! The texts that go out, one message for each record.

use crate::decimal::{Decimal, Number};
use crate::record::{BalanceRecord, Reading};
use vstd::prelude::*;

verus! {

/// One message on its way to a chat.
pub struct Notice {
    pub chat_id: i64,
    pub text: String,
    /// The text carries HTML markup that the chat should render.
    pub html: bool,
}

/// What a [`Notice`] holds, as plain values.
pub struct NoticeView {
    pub chat_id: i64,
    pub text: Seq<char>,
    pub html: bool,
}

impl View for Notice {
    type V = NoticeView;

    open spec fn view(&self) -> NoticeView {
        NoticeView { chat_id: self.chat_id, text: self.text@, html: self.html }
    }
}

impl DeepView for Notice {
    type V = NoticeView;

    open spec fn deep_view(&self) -> NoticeView {
        self@
    }
}

impl Clone for Notice {
    fn clone(&self) -> (copy: Self)
        ensures
            copy@ == self@,
    {
        Notice { chat_id: self.chat_id, text: self.text.clone(), html: self.html }
    }
}

/// The kind of message a batch is made of.
pub enum Mode {
    /// A report of the balance as it is.
    Normal,
    /// A warning that the balance fell under the threshold it carries.
    Warning(Decimal),
}

/// What a [`Mode`] holds, as plain values.
pub enum ModeView {
    Normal,
    Warning(Number),
}

impl View for Mode {
    type V = ModeView;

    open spec fn view(&self) -> ModeView {
        match self {
            Mode::Normal => ModeView::Normal,
            Mode::Warning(threshold) => ModeView::Warning(threshold@),
        }
    }
}

/// The report on one reading: address and room in bold on the first line,
/// the balance on the second.
pub open spec fn report_text(reading: Reading) -> Seq<char> {
    "<b>"@ + reading.address + " "@ + reading.room + "</b>\n"@ + reading.balance.text()
}

/// The warning on one reading: address and room, the threshold it fell
/// under, and the balance that is left.
pub open spec fn warning_text(reading: Reading, threshold: Number) -> Seq<char> {
    reading.address + " "@ + reading.room + " 的电费小于 "@ + threshold.text()
        + " 啦！目前余额为："@ + reading.balance.text() + "，快充值！！！"@
}

/// The message that `mode` asks for on one reading, addressed to `chat_id`.
/// Only reports carry markup.
pub open spec fn notice_for(chat_id: i64, reading: Reading, mode: ModeView) -> NoticeView {
    match mode {
        ModeView::Normal => NoticeView { chat_id, text: report_text(reading), html: true },
        ModeView::Warning(threshold) => NoticeView {
            chat_id,
            text: warning_text(reading, threshold),
            html: false,
        },
    }
}

/// One message for each reading, in the order of `readings`.
pub open spec fn notices_for(chat_id: i64, readings: Seq<Reading>, mode: ModeView) -> Seq<
    NoticeView,
> {
    Seq::new(readings.len(), |i: int| notice_for(chat_id, readings[i], mode))
}

/// A batch holds as many messages as there are readings, the message at
/// each place is the one on the reading at that place, and all go to the
/// one chat.
pub proof fn lemma_one_notice_each(chat_id: i64, readings: Seq<Reading>, mode: ModeView)
    ensures
        notices_for(chat_id, readings, mode).len() == readings.len(),
        forall|i: int|
            0 <= i < readings.len() ==> #[trigger] notices_for(chat_id, readings, mode)[i]
                == notice_for(chat_id, readings[i], mode),
        forall|i: int|
            0 <= i < readings.len() ==> (#[trigger] notices_for(chat_id, readings, mode)[i]).chat_id
                == chat_id,
{
}

/// Writes the report on `record`.
pub fn report_message(record: &BalanceRecord) -> (text: String)
    ensures
        text@ == report_text(record@),
{
    let mut text = String::from_str("<b>");
    text.append(record.address.as_str());
    text.append(" ");
    text.append(record.room.as_str());
    text.append("</b>\n");
    text.append(record.balance.to_text().as_str());
    text
}

/// Writes the warning that `record` fell under `threshold`.
pub fn warning_message(record: &BalanceRecord, threshold: &Decimal) -> (text: String)
    ensures
        text@ == warning_text(record@, threshold@),
{
    let mut text = record.address.clone();
    text.append(" ");
    text.append(record.room.as_str());
    text.append(" 的电费小于 ");
    text.append(threshold.to_text().as_str());
    text.append(" 啦！目前余额为：");
    text.append(record.balance.to_text().as_str());
    text.append("，快充值！！！");
    text
}

/// Writes the messages of one batch: one for each record, in the order of
/// `records`, each addressed to `chat_id`.
pub fn notices(chat_id: i64, records: &Vec<BalanceRecord>, mode: &Mode) -> (batch: Vec<Notice>)
    ensures
        batch.deep_view() == notices_for(chat_id, records.deep_view(), mode@),
{
    let mut batch: Vec<Notice> = Vec::new();
    let mut i: usize = 0;
    while i < records.len()
        invariant
            i <= records.len(),
            batch.len() == i,
            forall|j: int|
                0 <= j < i ==> (#[trigger] batch@[j])@ == notice_for(chat_id, records@[j]@, mode@),
        decreases records.len() - i,
    {
        let notice = match mode {
            Mode::Normal => Notice { chat_id, text: report_message(&records[i]), html: true },
            Mode::Warning(threshold) => Notice {
                chat_id,
                text: warning_message(&records[i], threshold),
                html: false,
            },
        };
        batch.push(notice);
        i += 1;
    }
    assert(batch.deep_view() =~= notices_for(chat_id, records.deep_view(), mode@));
    batch
}

} // verus!
