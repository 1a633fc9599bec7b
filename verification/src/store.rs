//! How the writes of one topic are stored in the table of the topic.

use crate::error::{outcome, LakeError, LakeErrorView};
use crate::text::{
    decimal, decimal_text, is_digit, law_filled_numeral_reads_back, law_zeros_fill_up,
    lemma_decimal_length, lemma_zero_filled_is_injective, value_of, zero_filled, zero_filled_text,
};
use crate::write::{write_views, LakeHouseType, TransactionWrite, TransactionWriteView};
use vstd::prelude::*;
use vstd::string::*;

verus! {

/// The writes of a topic, and which of them is at hand.
#[derive(Debug)]
pub struct Batches<'a, B> {
    topic: &'a str,
    writes: &'a [TransactionWrite<'a, B>],
    at: usize,
}

/// The mathematical value of a [`Batches`].
pub struct BatchesView<B> {
    pub topic: Seq<char>,
    pub writes: Seq<TransactionWriteView<B>>,
    pub at: int,
}

impl<B> BatchesView<B> {
    /// The write at hand.
    pub open spec fn write(self) -> TransactionWriteView<B> {
        self.writes[self.at]
    }

    /// Whether there is a write behind the one at hand.
    pub open spec fn has_next(self) -> bool {
        self.at + 1 < self.writes.len()
    }

    /// The same writes, with the next one at hand.
    pub open spec fn next(self) -> BatchesView<B> {
        BatchesView { at: self.at + 1, ..self }
    }

    /// Whether a write is at hand.
    pub open spec fn valid(self) -> bool {
        0 <= self.at < self.writes.len()
    }
}

impl<'a, B> View for Batches<'a, B> {
    type V = BatchesView<B>;

    closed spec fn view(&self) -> BatchesView<B> {
        BatchesView { topic: self.topic@, writes: write_views(self.writes@), at: self.at as int }
    }
}

/// The suffix of the names of the data files of a transaction: the partition in ten places and the
/// offset in twenty.
pub open spec fn file_suffix(partition: i32, offset: i64) -> Seq<char> {
    "txn-"@ + zero_filled(decimal(partition as int), 10) + "-"@ + zero_filled(
        decimal(offset as int),
        20,
    )
}

/// What is said of a batch whose schema is not that of the first one.
pub open spec fn mismatch_message(topic: Seq<char>, partition: i32, offset: i64) -> Seq<char> {
    "schema mismatch in transactional write for topic="@ + topic + ", partition="@ + decimal(
        partition as int,
    ) + ", offset="@ + decimal(offset as int)
}

/// What the schema registry is asked for: a batch of a topic partition, in the form of a kind of
/// lake.
#[derive(Debug)]
pub struct Conversion<'a, B> {
    pub topic: &'a str,
    pub partition: i32,
    pub batch: &'a B,
    pub lake_type: LakeHouseType,
}

/// The formats of data files.
#[derive(Clone, Copy, Debug, PartialEq, Eq, Structural)]
pub enum FileFormat {
    Parquet,
}

/// What the names of the data files of a transaction are made of.
#[derive(Debug)]
pub struct FileNames<'a> {
    pub prefix: &'a str,
    pub suffix: String,
    pub format: FileFormat,
}

/// The mathematical value of a [`FileNames`].
pub struct FileNamesView {
    pub prefix: Seq<char>,
    pub suffix: Seq<char>,
    pub format: FileFormat,
}

impl<'a> View for FileNames<'a> {
    type V = FileNamesView;

    open spec fn view(&self) -> FileNamesView {
        FileNamesView { prefix: self.prefix@, suffix: self.suffix@, format: self.format }
    }
}

/// What the names of the data files are made of, when a writer is opened at the write `write` of
/// `topic`.
pub open spec fn file_names<B>(topic: Seq<char>, write: TransactionWriteView<B>) -> FileNamesView {
    FileNamesView {
        prefix: topic,
        suffix: file_suffix(write.partition, write.offset),
        format: FileFormat::Parquet,
    }
}

impl<'a, B> Batches<'a, B> {
    #[verifier::type_invariant]
    spec fn well_formed(self) -> bool {
        self.at < self.writes@.len()
    }

    /// The topic.
    pub fn topic(&self) -> (topic: &'a str)
        ensures
            topic@ == self@.topic,
    {
        self.topic
    }

    /// The write at hand.
    pub fn write(&self) -> (write: TransactionWrite<'a, B>)
        ensures
            self@.valid(),
            write@ == self@.write(),
    {
        proof {
            use_type_invariant(self);
        }
        self.writes[self.at]
    }

    /// What the schema registry is asked for, to convert the write at hand.
    pub fn conversion(&self) -> (conversion: Conversion<'a, B>)
        ensures
            self@.valid(),
            conversion.topic@ == self@.topic,
            conversion.partition == self@.write().partition,
            *conversion.batch == self@.write().batch,
            conversion.lake_type == LakeHouseType::Iceberg,
    {
        let write: TransactionWrite<'a, B> = self.write();
        Conversion {
            topic: self.topic,
            partition: write.partition,
            batch: write.batch,
            lake_type: LakeHouseType::Iceberg,
        }
    }

    /// The suffix of the names of the data files: it names the write at hand.
    pub fn file_suffix(&self) -> (suffix: String)
        ensures
            suffix@ == file_suffix(self@.write().partition, self@.write().offset),
    {
        let write: TransactionWrite<'a, B> = self.write();
        let mut suffix: String = "txn-".to_owned();
        let partition: String = decimal_text(write.partition as i64);
        suffix.append(zero_filled_text(partition.as_str(), 10).as_str());
        suffix.append("-");
        let offset: String = decimal_text(write.offset);
        suffix.append(zero_filled_text(offset.as_str(), 20).as_str());
        suffix
    }

    fn mismatch(&self) -> (message: String)
        ensures
            message@ == mismatch_message(
                self@.topic,
                self@.write().partition,
                self@.write().offset,
            ),
    {
        let write: TransactionWrite<'a, B> = self.write();
        let mut message: String = "schema mismatch in transactional write for topic=".to_owned();
        message.append(self.topic);
        message.append(", partition=");
        message.append(decimal_text(write.partition as i64).as_str());
        message.append(", offset=");
        message.append(decimal_text(write.offset).as_str());
        message
    }

    fn next(self) -> (next: Option<Self>)
        ensures
            match next {
                Some(next) => self@.has_next() && next@ == self@.next(),
                None => !self@.has_next(),
            },
    {
        proof {
            use_type_invariant(&self);
        }
        if self.writes.len() - self.at > 1 {
            Some(Batches { topic: self.topic, writes: self.writes, at: self.at + 1 })
        } else {
            None
        }
    }
}

/// The steps that store the writes of a topic. `B` is a batch as it was produced, `R` a batch in the
/// form of the table, `A` the schema of such a batch, `S` the schema of a table, `T` a table, `F`
/// the data files, and `E` an error of the schema registry.
#[derive(Debug)]
pub enum StoreStep<'a, B, R, A, S, T, F, E> {
    /// The schema registry is to convert the first batch.
    Convert(ConvertFirst<'a, B>),
    /// The table of the topic is to be found, or brought about with the schema.
    Table(NeedTable<'a, B, R, A, S>),
    /// A writer of data files is to be opened on the table.
    Open(OpenWriter<'a, B, R, A, T>),
    /// The writer is to write the batch.
    Write(WriteBatch<'a, B, R, A, T>),
    /// The schema registry is to convert the next batch.
    Next(ConvertNext<'a, B, A, T>),
    /// The writer is to be closed.
    Close(CloseWriter<T>),
    /// The data files are to be appended to the table.
    Commit(CommitFiles<T, F>),
    /// The writes are stored, or a step failed.
    Finished(Result<(), LakeError<E>>),
}

/// The first batch is to be converted.
#[derive(Debug)]
pub struct ConvertFirst<'a, B> {
    pub batches: Batches<'a, B>,
}

/// The first batch is converted.
#[derive(Debug)]
pub struct NeedTable<'a, B, R, A, S> {
    pub batches: Batches<'a, B>,
    pub batch: R,
    pub arrow: A,
    pub schema: S,
}

/// The table is found.
#[derive(Debug)]
pub struct OpenWriter<'a, B, R, A, T> {
    pub batches: Batches<'a, B>,
    pub batch: R,
    pub arrow: A,
    pub table: T,
}

/// A writer is open.
#[derive(Debug)]
pub struct Progress<'a, B, A, T> {
    pub batches: Batches<'a, B>,
    pub arrow: A,
    pub table: T,
}

/// A batch is to be written.
#[derive(Debug)]
pub struct WriteBatch<'a, B, R, A, T> {
    pub progress: Progress<'a, B, A, T>,
    pub batch: R,
}

/// A later batch is to be converted.
#[derive(Debug)]
pub struct ConvertNext<'a, B, A, T> {
    pub progress: Progress<'a, B, A, T>,
}

/// All batches are written.
#[derive(Debug)]
pub struct CloseWriter<T> {
    pub table: T,
}

/// The data files are complete.
#[derive(Debug)]
pub struct CommitFiles<T, F> {
    pub table: T,
    pub commit_uuid: u128,
    pub files: F,
}

/// A first batch in the form of the table, with its schema, as that of the batch and as that of a
/// table.
#[derive(Debug)]
pub struct FirstBatch<R, A, S> {
    pub batch: R,
    pub arrow: A,
    pub schema: S,
}

/// The mathematical value of a [`StoreStep`].
pub enum StoreView<B, R, A, S, T, F, E> {
    Convert { batches: BatchesView<B> },
    Table { batches: BatchesView<B>, batch: R, arrow: A, schema: S },
    Open { batches: BatchesView<B>, batch: R, arrow: A, table: T },
    Write { batches: BatchesView<B>, batch: R, arrow: A, table: T },
    Next { batches: BatchesView<B>, arrow: A, table: T },
    Close { table: T },
    Commit { table: T, commit_uuid: u128, files: F },
    Finished(Result<(), LakeErrorView<E>>),
}

impl<'a, B, R, A, S, T, F, E> View for StoreStep<'a, B, R, A, S, T, F, E> {
    type V = StoreView<B, R, A, S, T, F, E>;

    open spec fn view(&self) -> StoreView<B, R, A, S, T, F, E> {
        match *self {
            StoreStep::Convert(step) => StoreView::Convert { batches: step.batches@ },
            StoreStep::Table(step) => StoreView::Table {
                batches: step.batches@,
                batch: step.batch,
                arrow: step.arrow,
                schema: step.schema,
            },
            StoreStep::Open(step) => StoreView::Open {
                batches: step.batches@,
                batch: step.batch,
                arrow: step.arrow,
                table: step.table,
            },
            StoreStep::Write(step) => StoreView::Write {
                batches: step.progress.batches@,
                batch: step.batch,
                arrow: step.progress.arrow,
                table: step.progress.table,
            },
            StoreStep::Next(step) => StoreView::Next {
                batches: step.progress.batches@,
                arrow: step.progress.arrow,
                table: step.progress.table,
            },
            StoreStep::Close(step) => StoreView::Close { table: step.table },
            StoreStep::Commit(step) => StoreView::Commit {
                table: step.table,
                commit_uuid: step.commit_uuid,
                files: step.files,
            },
            StoreStep::Finished(result) => StoreView::Finished(outcome(result)),
        }
    }
}

/// The first step for the writes `writes` of `topic`: where there is none, there is nothing to do.
pub open spec fn store_started<B, R, A, S, T, F, E>(
    topic: Seq<char>,
    writes: Seq<TransactionWriteView<B>>,
) -> StoreView<B, R, A, S, T, F, E> {
    if writes.len() == 0 {
        StoreView::Finished(Ok(()))
    } else {
        StoreView::Convert { batches: BatchesView { topic, writes, at: 0 } }
    }
}

/// What follows when the first batch was converted.
pub open spec fn first_converted<B, R, A, S, T, F, E>(
    batches: BatchesView<B>,
    reply: Result<FirstBatch<R, A, S>, LakeErrorView<E>>,
) -> StoreView<B, R, A, S, T, F, E> {
    match reply {
        Ok(first) => StoreView::Table {
            batches,
            batch: first.batch,
            arrow: first.arrow,
            schema: first.schema,
        },
        Err(err) => StoreView::Finished(Err(err)),
    }
}

/// What follows when the table was found.
pub open spec fn table_found<B, R, A, S, T, F, E>(
    batches: BatchesView<B>,
    batch: R,
    arrow: A,
    reply: Result<T, LakeErrorView<E>>,
) -> StoreView<B, R, A, S, T, F, E> {
    match reply {
        Ok(table) => StoreView::Open { batches, batch, arrow, table },
        Err(err) => StoreView::Finished(Err(err)),
    }
}

/// What follows when a writer was opened.
pub open spec fn writer_opened<B, R, A, S, T, F, E>(
    batches: BatchesView<B>,
    batch: R,
    arrow: A,
    table: T,
    reply: Result<(), LakeErrorView<E>>,
) -> StoreView<B, R, A, S, T, F, E> {
    match reply {
        Ok(()) => StoreView::Write { batches, batch, arrow, table },
        Err(err) => StoreView::Finished(Err(err)),
    }
}

/// What follows when a batch was written.
pub open spec fn batch_written<B, R, A, S, T, F, E>(
    batches: BatchesView<B>,
    arrow: A,
    table: T,
    reply: Result<(), LakeErrorView<E>>,
) -> StoreView<B, R, A, S, T, F, E> {
    match reply {
        Ok(()) => if batches.has_next() {
            StoreView::Next { batches: batches.next(), arrow, table }
        } else {
            StoreView::Close { table }
        },
        Err(err) => StoreView::Finished(Err(err)),
    }
}

/// What follows when a later batch was converted: `same` says whether its schema is that of the
/// first batch.
pub open spec fn next_converted<B, R, A, S, T, F, E>(
    batches: BatchesView<B>,
    arrow: A,
    table: T,
    reply: Result<R, LakeErrorView<E>>,
    same: bool,
) -> StoreView<B, R, A, S, T, F, E> {
    match reply {
        Ok(batch) => if same {
            StoreView::Write { batches, batch, arrow, table }
        } else {
            StoreView::Finished(
                Err(
                    LakeErrorView::Message(
                        mismatch_message(
                            batches.topic,
                            batches.write().partition,
                            batches.write().offset,
                        ),
                    ),
                ),
            )
        },
        Err(err) => StoreView::Finished(Err(err)),
    }
}

/// What follows when the writer was closed: `reply` gives the data files, and the UUID that they are
/// committed under.
pub open spec fn writer_closed<B, R, A, S, T, F, E>(
    table: T,
    reply: Result<(F, u128), LakeErrorView<E>>,
) -> StoreView<B, R, A, S, T, F, E> {
    match reply {
        Ok((files, commit_uuid)) => StoreView::Commit { table, commit_uuid, files },
        Err(err) => StoreView::Finished(Err(err)),
    }
}

/// Starts to store the writes `writes` in the table of `topic`.
pub fn store_transaction<'a, B, R, A, S, T, F, E>(
    topic: &'a str,
    writes: &'a [TransactionWrite<'a, B>],
) -> (step: StoreStep<'a, B, R, A, S, T, F, E>)
    ensures
        step@ == store_started::<B, R, A, S, T, F, E>(topic@, write_views(writes@)),
{
    if writes.len() == 0 {
        StoreStep::Finished(Ok(()))
    } else {
        StoreStep::Convert(ConvertFirst { batches: Batches { topic, writes, at: 0 } })
    }
}

impl<'a, B> ConvertFirst<'a, B> {
    /// What follows when the first batch was converted.
    pub fn converted<R, A, S, T, F, E>(
        self,
        reply: Result<FirstBatch<R, A, S>, LakeError<E>>,
    ) -> (step: StoreStep<'a, B, R, A, S, T, F, E>)
        ensures
            step@ == first_converted::<B, R, A, S, T, F, E>(self.batches@, outcome(reply)),
    {
        match reply {
            Ok(first) => StoreStep::Table(
                NeedTable {
                    batches: self.batches,
                    batch: first.batch,
                    arrow: first.arrow,
                    schema: first.schema,
                },
            ),
            Err(err) => StoreStep::Finished(Err(err)),
        }
    }
}

impl<'a, B, R, A, S> NeedTable<'a, B, R, A, S> {
    /// What follows when the table was found.
    pub fn found<T, F, E>(self, reply: Result<T, LakeError<E>>) -> (step: StoreStep<
        'a,
        B,
        R,
        A,
        S,
        T,
        F,
        E,
    >)
        ensures
            step@ == table_found::<B, R, A, S, T, F, E>(
                self.batches@,
                self.batch,
                self.arrow,
                outcome(reply),
            ),
    {
        match reply {
            Ok(table) => StoreStep::Open(
                OpenWriter {
                    batches: self.batches,
                    batch: self.batch,
                    arrow: self.arrow,
                    table,
                },
            ),
            Err(err) => StoreStep::Finished(Err(err)),
        }
    }
}

impl<'a, B, R, A, T> OpenWriter<'a, B, R, A, T> {
    /// What the names of the data files are made of: the topic, the write at hand, and the format
    /// Parquet.
    pub fn file_names(&self) -> (names: FileNames<'a>)
        ensures
            names@ == file_names(self.batches@.topic, self.batches@.write()),
    {
        FileNames {
            prefix: self.batches.topic(),
            suffix: self.batches.file_suffix(),
            format: FileFormat::Parquet,
        }
    }

    /// What follows when a writer was opened.
    pub fn opened<S, F, E>(self, reply: Result<(), LakeError<E>>) -> (step: StoreStep<
        'a,
        B,
        R,
        A,
        S,
        T,
        F,
        E,
    >)
        ensures
            step@ == writer_opened::<B, R, A, S, T, F, E>(
                self.batches@,
                self.batch,
                self.arrow,
                self.table,
                outcome(reply),
            ),
    {
        match reply {
            Ok(()) => StoreStep::Write(
                WriteBatch {
                    progress: Progress {
                        batches: self.batches,
                        arrow: self.arrow,
                        table: self.table,
                    },
                    batch: self.batch,
                },
            ),
            Err(err) => StoreStep::Finished(Err(err)),
        }
    }
}

impl<'a, B, A, T> Progress<'a, B, A, T> {
    /// What follows when a batch was written.
    pub fn written<R, S, F, E>(self, reply: Result<(), LakeError<E>>) -> (step: StoreStep<
        'a,
        B,
        R,
        A,
        S,
        T,
        F,
        E,
    >)
        ensures
            step@ == batch_written::<B, R, A, S, T, F, E>(
                self.batches@,
                self.arrow,
                self.table,
                outcome(reply),
            ),
    {
        match reply {
            Ok(()) => match self.batches.next() {
                Some(batches) => StoreStep::Next(
                    ConvertNext {
                        progress: Progress { batches, arrow: self.arrow, table: self.table },
                    },
                ),
                None => StoreStep::Close(CloseWriter { table: self.table }),
            },
            Err(err) => StoreStep::Finished(Err(err)),
        }
    }
}

impl<'a, B, A, T> ConvertNext<'a, B, A, T> {
    /// What follows when a later batch was converted: `same` says whether its schema is that of the
    /// first batch.
    pub fn converted<R, S, F, E>(self, reply: Result<R, LakeError<E>>, same: bool) -> (step:
        StoreStep<'a, B, R, A, S, T, F, E>)
        ensures
            step@ == next_converted::<B, R, A, S, T, F, E>(
                self.progress.batches@,
                self.progress.arrow,
                self.progress.table,
                outcome(reply),
                same,
            ),
    {
        match reply {
            Ok(batch) => if same {
                StoreStep::Write(WriteBatch { progress: self.progress, batch })
            } else {
                StoreStep::Finished(Err(LakeError::Message(self.progress.batches.mismatch())))
            },
            Err(err) => StoreStep::Finished(Err(err)),
        }
    }
}

impl<T> CloseWriter<T> {
    /// What follows when the writer was closed: `reply` gives the data files, and the UUID that they
    /// are committed under.
    pub fn closed<'a, B, R, A, S, F, E>(self, reply: Result<(F, u128), LakeError<E>>) -> (step:
        StoreStep<'a, B, R, A, S, T, F, E>)
        ensures
            step@ == writer_closed::<B, R, A, S, T, F, E>(self.table, outcome(reply)),
    {
        match reply {
            Ok((files, commit_uuid)) => StoreStep::Commit(
                CommitFiles { table: self.table, commit_uuid, files },
            ),
            Err(err) => StoreStep::Finished(Err(err)),
        }
    }
}

impl<T, F> CommitFiles<T, F> {
    /// The end, when the data files were appended to the table or could not be.
    pub fn committed<'a, B, R, A, S, E>(self, reply: Result<(), LakeError<E>>) -> (step: StoreStep<
        'a,
        B,
        R,
        A,
        S,
        T,
        F,
        E,
    >)
        ensures
            step@ == StoreView::<B, R, A, S, T, F, E>::Finished(outcome(reply)),
    {
        StoreStep::Finished(reply)
    }
}

/// The suffix of the data files tells transactions apart: those whose first writes have another
/// partition or another offset have another suffix.
pub proof fn law_file_suffix_is_unique(p: i32, o: i64, q: i32, r: i64)
    requires
        file_suffix(p, o) == file_suffix(q, r),
    ensures
        p == q,
        o == r,
{
    reveal_strlit("txn-");
    reveal_strlit("-");
    let s = file_suffix(p, o);
    let (a, b) = (zero_filled(decimal(p as int), 10), zero_filled(decimal(q as int), 10));
    let (c, d) = (zero_filled(decimal(o as int), 20), zero_filled(decimal(r as int), 20));
    lemma_decimal_length(o);
    lemma_decimal_length(r);
    assert(c.len() == 20 && d.len() == 20);
    assert(c =~= s.skip(s.len() - 20));
    assert(d =~= s.skip(s.len() - 20));
    assert(a =~= s.subrange(4, s.len() - 21));
    assert(b =~= s.subrange(4, s.len() - 21));
    lemma_zero_filled_is_injective(p as int, q as int, 10);
    lemma_zero_filled_is_injective(o as int, r as int, 20);
}

/// An answer to a step.
pub enum StoreEvent<R, A, S, T, F, E> {
    FirstConverted(Result<FirstBatch<R, A, S>, LakeErrorView<E>>),
    TableFound(Result<T, LakeErrorView<E>>),
    WriterOpened(Result<(), LakeErrorView<E>>),
    BatchWritten(Result<(), LakeErrorView<E>>),
    /// The batch, and whether its schema is that of the first one.
    NextConverted(Result<R, LakeErrorView<E>>, bool),
    /// The data files, and the UUID of the commit.
    WriterClosed(Result<(F, u128), LakeErrorView<E>>),
    FilesCommitted(Result<(), LakeErrorView<E>>),
}

/// Whether `event` answers `step`.
pub open spec fn answers<B, R, A, S, T, F, E>(
    event: StoreEvent<R, A, S, T, F, E>,
    step: StoreView<B, R, A, S, T, F, E>,
) -> bool {
    match event {
        StoreEvent::FirstConverted(_) => step is Convert,
        StoreEvent::TableFound(_) => step is Table,
        StoreEvent::WriterOpened(_) => step is Open,
        StoreEvent::BatchWritten(_) => step is Write,
        StoreEvent::NextConverted(_, _) => step is Next,
        StoreEvent::WriterClosed(_) => step is Close,
        StoreEvent::FilesCommitted(_) => step is Commit,
    }
}

/// The error that an answer carries, if it is one of failure.
pub open spec fn failure<R, A, S, T, F, E>(event: StoreEvent<R, A, S, T, F, E>) -> Option<
    LakeErrorView<E>,
> {
    match event {
        StoreEvent::FirstConverted(Err(err)) => Some(err),
        StoreEvent::TableFound(Err(err)) => Some(err),
        StoreEvent::WriterOpened(Err(err)) => Some(err),
        StoreEvent::BatchWritten(Err(err)) => Some(err),
        StoreEvent::NextConverted(Err(err), _) => Some(err),
        StoreEvent::WriterClosed(Err(err)) => Some(err),
        StoreEvent::FilesCommitted(Err(err)) => Some(err),
        _ => None,
    }
}

/// The step that follows `step` when it was answered by `event`. An answer to another step is not
/// heard.
pub open spec fn store_after<B, R, A, S, T, F, E>(
    step: StoreView<B, R, A, S, T, F, E>,
    event: StoreEvent<R, A, S, T, F, E>,
) -> StoreView<B, R, A, S, T, F, E> {
    match (step, event) {
        (StoreView::Convert { batches }, StoreEvent::FirstConverted(reply)) => first_converted(
            batches,
            reply,
        ),
        (
            StoreView::Table { batches, batch, arrow, schema },
            StoreEvent::TableFound(reply),
        ) => table_found(batches, batch, arrow, reply),
        (
            StoreView::Open { batches, batch, arrow, table },
            StoreEvent::WriterOpened(reply),
        ) => writer_opened(batches, batch, arrow, table, reply),
        (
            StoreView::Write { batches, batch, arrow, table },
            StoreEvent::BatchWritten(reply),
        ) => batch_written(batches, arrow, table, reply),
        (
            StoreView::Next { batches, arrow, table },
            StoreEvent::NextConverted(reply, same),
        ) => next_converted(batches, arrow, table, reply, same),
        (StoreView::Close { table }, StoreEvent::WriterClosed(reply)) => writer_closed(table, reply),
        (StoreView::Commit { .. }, StoreEvent::FilesCommitted(reply)) => StoreView::Finished(reply),
        _ => step,
    }
}

/// Where the storing of `writes` in the table of `topic` stands after the answers `events`.
pub open spec fn store_run<B, R, A, S, T, F, E>(
    topic: Seq<char>,
    writes: Seq<TransactionWriteView<B>>,
    events: Seq<StoreEvent<R, A, S, T, F, E>>,
) -> StoreView<B, R, A, S, T, F, E>
    decreases events.len(),
{
    if events.len() == 0 {
        store_started(topic, writes)
    } else {
        store_after(store_run(topic, writes, events.drop_last()), events.last())
    }
}

/// The batches that were written by then, in the order of writing.
pub open spec fn batches_written<B, R, A, S, T, F, E>(
    topic: Seq<char>,
    writes: Seq<TransactionWriteView<B>>,
    events: Seq<StoreEvent<R, A, S, T, F, E>>,
) -> Seq<R>
    decreases events.len(),
{
    if events.len() == 0 {
        Seq::empty()
    } else {
        let before = batches_written(topic, writes, events.drop_last());
        match (store_run(topic, writes, events.drop_last()), events.last()) {
            (
                StoreView::Write { batch, .. },
                StoreEvent::BatchWritten(Ok(())),
            ) => before.push(batch),
            _ => before,
        }
    }
}

/// The batches that the schema registry gave by then for the writes at hand, in the order of the
/// writes. Those with another schema than the first one are not among them.
pub open spec fn batches_converted<B, R, A, S, T, F, E>(
    topic: Seq<char>,
    writes: Seq<TransactionWriteView<B>>,
    events: Seq<StoreEvent<R, A, S, T, F, E>>,
) -> Seq<R>
    decreases events.len(),
{
    if events.len() == 0 {
        Seq::empty()
    } else {
        let before = batches_converted(topic, writes, events.drop_last());
        match (store_run(topic, writes, events.drop_last()), events.last()) {
            (
                StoreView::Convert { .. },
                StoreEvent::FirstConverted(Ok(first)),
            ) => before.push(first.batch),
            (
                StoreView::Next { .. },
                StoreEvent::NextConverted(Ok(batch), true),
            ) => before.push(batch),
            _ => before,
        }
    }
}

/// The tables that were found by then.
pub open spec fn tables_found<B, R, A, S, T, F, E>(
    topic: Seq<char>,
    writes: Seq<TransactionWriteView<B>>,
    events: Seq<StoreEvent<R, A, S, T, F, E>>,
) -> Seq<T>
    decreases events.len(),
{
    if events.len() == 0 {
        Seq::empty()
    } else {
        let before = tables_found(topic, writes, events.drop_last());
        match (store_run(topic, writes, events.drop_last()), events.last()) {
            (
                StoreView::Table { .. },
                StoreEvent::TableFound(Ok(table)),
            ) => before.push(table),
            _ => before,
        }
    }
}

/// The data files that a writer was closed with by then, with the UUIDs of their commits.
pub open spec fn files_closed<B, R, A, S, T, F, E>(
    topic: Seq<char>,
    writes: Seq<TransactionWriteView<B>>,
    events: Seq<StoreEvent<R, A, S, T, F, E>>,
) -> Seq<(F, u128)>
    decreases events.len(),
{
    if events.len() == 0 {
        Seq::empty()
    } else {
        let before = files_closed(topic, writes, events.drop_last());
        match (store_run(topic, writes, events.drop_last()), events.last()) {
            (
                StoreView::Close { .. },
                StoreEvent::WriterClosed(Ok(files)),
            ) => before.push(files),
            _ => before,
        }
    }
}

/// An answer of failure ends the storing with its error, whatever step it answers.
pub proof fn law_failed_step_ends_store<B, R, A, S, T, F, E>(
    step: StoreView<B, R, A, S, T, F, E>,
    event: StoreEvent<R, A, S, T, F, E>,
)
    requires
        answers(event, step),
        failure(event) is Some,
    ensures
        store_after(step, event) == StoreView::<B, R, A, S, T, F, E>::Finished(
            Err(failure(event)->0),
        ),
{
}

/// A storing that has ended stays as it ended: after a failure nothing is committed.
pub proof fn law_finished_store_stays<B, R, A, S, T, F, E>(
    topic: Seq<char>,
    writes: Seq<TransactionWriteView<B>>,
    events: Seq<StoreEvent<R, A, S, T, F, E>>,
    n: int,
)
    requires
        0 <= n <= events.len(),
        store_run(topic, writes, events.take(n)) is Finished,
    ensures
        store_run(topic, writes, events) == store_run(topic, writes, events.take(n)),
    decreases events.len(),
{
    if n == events.len() {
        assert(events.take(n) =~= events);
    } else {
        assert(events.drop_last().take(n) =~= events.take(n));
        law_finished_store_stays(topic, writes, events.drop_last(), n);
    }
}

/// A batch whose schema is not that of the first one rejects the transaction: the storing ends with
/// a message that names the topic, and the partition and the offset of the batch.
pub proof fn law_schema_mismatch_rejects_store<B, R, A, S, T, F, E>(
    batches: BatchesView<B>,
    arrow: A,
    table: T,
    batch: R,
)
    ensures
        store_after(
            (StoreView::<B, R, A, S, T, F, E>::Next { batches, arrow, table }),
            StoreEvent::NextConverted(Ok(batch), false),
        ) == StoreView::<B, R, A, S, T, F, E>::Finished(
            Err(
                LakeErrorView::Message(
                    mismatch_message(
                        batches.topic,
                        batches.write().partition,
                        batches.write().offset,
                    ),
                ),
            ),
        ),
{
}

/// The writes that a step has at hand.
pub open spec fn batches_at<B, R, A, S, T, F, E>(
    step: StoreView<B, R, A, S, T, F, E>,
) -> Option<BatchesView<B>> {
    match step {
        StoreView::Convert { batches } => Some(batches),
        StoreView::Table { batches, .. } => Some(batches),
        StoreView::Open { batches, .. } => Some(batches),
        StoreView::Write { batches, .. } => Some(batches),
        StoreView::Next { batches, .. } => Some(batches),
        _ => None,
    }
}

/// The writes are stored in their order, each once: whenever a write is at hand, it is one of
/// those that are to be stored, and the batches written by then are the converted batches of the
/// writes before it, in their order.
pub proof fn law_writes_are_stored_in_order<B, R, A, S, T, F, E>(
    topic: Seq<char>,
    writes: Seq<TransactionWriteView<B>>,
    events: Seq<StoreEvent<R, A, S, T, F, E>>,
)
    ensures
        batches_at(store_run(topic, writes, events)) matches Some(batches) ==> {
            &&& batches.topic == topic
            &&& batches.writes == writes
            &&& 0 <= batches.at < writes.len()
            &&& batches_written(topic, writes, events) == batches_converted(
                topic,
                writes,
                events,
            ).take(batches.at)
            &&& batches_written(topic, writes, events).len() == batches.at
        },
{
    lemma_store_run(topic, writes, events);
}

/// Data files are committed only when the converted batch of every write was written, in the order
/// of the writes, and so does a store only then succeed. Without a write, it succeeds at once.
pub proof fn law_commit_follows_all_writes<B, R, A, S, T, F, E>(
    topic: Seq<char>,
    writes: Seq<TransactionWriteView<B>>,
    events: Seq<StoreEvent<R, A, S, T, F, E>>,
)
    ensures
        store_run(topic, writes, events) is Commit || store_run(topic, writes, events)
            == StoreView::<B, R, A, S, T, F, E>::Finished(Ok(())) ==> {
            &&& batches_written(topic, writes, events) == batches_converted(topic, writes, events)
            &&& batches_written(topic, writes, events).len() == writes.len()
        },
        writes.len() == 0 ==> store_run(topic, writes, events) == StoreView::<
            B,
            R,
            A,
            S,
            T,
            F,
            E,
        >::Finished(Ok(())),
{
    lemma_store_run(topic, writes, events);
}

/// The data files of a transaction are named by its topic and its first write, whatever the others
/// are.
pub proof fn law_files_are_named_by_the_first_write<B, R, A, S, T, F, E>(
    topic: Seq<char>,
    writes: Seq<TransactionWriteView<B>>,
    events: Seq<StoreEvent<R, A, S, T, F, E>>,
)
    ensures
        store_run(topic, writes, events) matches StoreView::Open { batches, .. } ==> {
            &&& writes.len() > 0
            &&& batches == (BatchesView { topic, writes, at: 0 })
            &&& file_names(batches.topic, batches.write()) == (FileNamesView {
                prefix: topic,
                suffix: file_suffix(writes[0].partition, writes[0].offset),
                format: FileFormat::Parquet,
            })
        },
{
    lemma_store_run(topic, writes, events);
}

/// What is committed is what was closed, to the table that was found: the data files and the UUID
/// are those that the writer was closed with, and the table is the one table that was found.
pub proof fn law_commit_carries_table_and_files<B, R, A, S, T, F, E>(
    topic: Seq<char>,
    writes: Seq<TransactionWriteView<B>>,
    events: Seq<StoreEvent<R, A, S, T, F, E>>,
)
    ensures
        store_run(topic, writes, events) matches StoreView::Commit { table, commit_uuid, files } ==> {
            &&& tables_found(topic, writes, events) == seq![table]
            &&& files_closed(topic, writes, events) == seq![(files, commit_uuid)]
        },
{
    lemma_store_run(topic, writes, events);
}

/// The table that a step goes on with.
spec fn table_at<B, R, A, S, T, F, E>(step: StoreView<B, R, A, S, T, F, E>) -> Option<T> {
    match step {
        StoreView::Open { table, .. } => Some(table),
        StoreView::Write { table, .. } => Some(table),
        StoreView::Next { table, .. } => Some(table),
        StoreView::Close { table } => Some(table),
        StoreView::Commit { table, .. } => Some(table),
        _ => None,
    }
}

/// The batch that a step is to write, or will be.
spec fn batch_at<B, R, A, S, T, F, E>(step: StoreView<B, R, A, S, T, F, E>) -> Option<R> {
    match step {
        StoreView::Table { batch, .. } => Some(batch),
        StoreView::Open { batch, .. } => Some(batch),
        StoreView::Write { batch, .. } => Some(batch),
        _ => None,
    }
}

proof fn lemma_store_run<B, R, A, S, T, F, E>(
    topic: Seq<char>,
    writes: Seq<TransactionWriteView<B>>,
    events: Seq<StoreEvent<R, A, S, T, F, E>>,
)
    ensures
        ({
            let step = store_run(topic, writes, events);
            let written = batches_written(topic, writes, events);
            let converted = batches_converted(topic, writes, events);
            let tables = tables_found(topic, writes, events);
            let files = files_closed(topic, writes, events);
            &&& batches_at(step) matches Some(batches) ==> {
                &&& batches.topic == topic
                &&& batches.writes == writes
                &&& 0 <= batches.at < writes.len()
                &&& written.len() == batches.at
                &&& written == converted.take(batches.at)
                &&& converted == (match batch_at(step) {
                    Some(batch) => written.push(batch),
                    None => written,
                })
            }
            &&& step is Convert || step is Table ==> tables.len() == 0 && written.len() == 0
            &&& step is Open ==> written.len() == 0
            &&& table_at(step) matches Some(table) ==> tables == seq![table]
            &&& step is Close || step is Commit ==> written.len() == writes.len() > 0 && written
                == converted
            &&& !(step is Commit || step is Finished) ==> files.len() == 0
            &&& step matches StoreView::Commit { commit_uuid, files: f, .. } ==> files == seq![
                (f, commit_uuid),
            ]
            &&& step == StoreView::<B, R, A, S, T, F, E>::Finished(Ok(())) ==> written.len()
                == writes.len() && written == converted
            &&& writes.len() == 0 ==> step == StoreView::<B, R, A, S, T, F, E>::Finished(Ok(()))
        }),
    decreases events.len(),
{
    if events.len() > 0 {
        lemma_store_run(topic, writes, events.drop_last());
        let written = batches_written(topic, writes, events);
        assert(written.take(written.len() as int) =~= written);
        match batch_at(store_run(topic, writes, events)) {
            Some(batch) => {
                assert(written.push(batch).take(written.len() as int) =~= written);
            },
            None => {},
        }
    } else {
        assert(batches_written(topic, writes, events) =~= batches_converted(
            topic,
            writes,
            events,
        ).take(0));
    }
}

/// The answer that comes at the place `m` when all goes well with `n` writes: the first batch is
/// converted, the table found and the writer opened; each batch is written and the next one converted
/// with the same schema; then the writer is closed and the files are committed.
pub open spec fn good_answer<R, A, S, T, F, E>(
    n: int,
    first: FirstBatch<R, A, S>,
    later: Seq<R>,
    table: T,
    files: F,
    commit_uuid: u128,
    m: int,
) -> StoreEvent<R, A, S, T, F, E> {
    if m == 0 {
        StoreEvent::FirstConverted(Ok(first))
    } else if m == 1 {
        StoreEvent::TableFound(Ok(table))
    } else if m == 2 {
        StoreEvent::WriterOpened(Ok(()))
    } else if m < 2 * n + 2 {
        if m % 2 == 1 {
            StoreEvent::BatchWritten(Ok(()))
        } else {
            StoreEvent::NextConverted(Ok(later[(m - 4) / 2]), true)
        }
    } else if m == 2 * n + 2 {
        StoreEvent::WriterClosed(Ok((files, commit_uuid)))
    } else {
        StoreEvent::FilesCommitted(Ok(()))
    }
}

/// When all goes well, every batch is stored, whatever partitions and offsets the writes have: the
/// first `m` answers lead to the step that is due. The batches are written one after the other, each
/// with the write that it comes from at hand, to the table that was found. Then the writer is closed,
/// the files are committed, and the storing succeeds.
pub proof fn law_all_writes_are_stored<B, R, A, S, T, F, E>(
    topic: Seq<char>,
    writes: Seq<TransactionWriteView<B>>,
    first: FirstBatch<R, A, S>,
    later: Seq<R>,
    table: T,
    files: F,
    commit_uuid: u128,
    m: int,
)
    requires
        writes.len() > 0,
        later.len() == writes.len() - 1,
        0 <= m <= 2 * writes.len() + 4,
    ensures
        ({
            let n = writes.len() as int;
            let answers = Seq::new(
                m as nat,
                |i: int| good_answer::<R, A, S, T, F, E>(n, first, later, table, files, commit_uuid, i),
            );
            store_run(topic, writes, answers) == (if m == 0 {
                StoreView::<B, R, A, S, T, F, E>::Convert {
                    batches: BatchesView { topic, writes, at: 0 },
                }
            } else if m == 1 {
                StoreView::Table {
                    batches: BatchesView { topic, writes, at: 0 },
                    batch: first.batch,
                    arrow: first.arrow,
                    schema: first.schema,
                }
            } else if m == 2 {
                StoreView::Open {
                    batches: BatchesView { topic, writes, at: 0 },
                    batch: first.batch,
                    arrow: first.arrow,
                    table,
                }
            } else if m < 2 * n + 2 && m % 2 == 1 {
                StoreView::Write {
                    batches: BatchesView { topic, writes, at: (m - 3) / 2 },
                    batch: if m == 3 { first.batch } else { later[(m - 5) / 2] },
                    arrow: first.arrow,
                    table,
                }
            } else if m < 2 * n + 2 {
                StoreView::Next {
                    batches: BatchesView { topic, writes, at: (m - 2) / 2 },
                    arrow: first.arrow,
                    table,
                }
            } else if m == 2 * n + 2 {
                StoreView::Close { table }
            } else if m == 2 * n + 3 {
                StoreView::Commit { table, commit_uuid, files }
            } else {
                StoreView::Finished(Ok(()))
            })
        }),
    decreases m,
{
    let n = writes.len() as int;
    let answers = Seq::new(
        m as nat,
        |i: int| good_answer::<R, A, S, T, F, E>(n, first, later, table, files, commit_uuid, i),
    );
    if m > 0 {
        law_all_writes_are_stored::<B, R, A, S, T, F, E>(
            topic,
            writes,
            first,
            later,
            table,
            files,
            commit_uuid,
            m - 1,
        );
        let fewer = Seq::new(
            (m - 1) as nat,
            |i: int| good_answer::<R, A, S, T, F, E>(n, first, later, table, files, commit_uuid, i),
        );
        assert(answers.drop_last() =~= fewer);
        assert(answers.last() == good_answer::<R, A, S, T, F, E>(
            n,
            first,
            later,
            table,
            files,
            commit_uuid,
            m - 1,
        ));
    }
}

/// A storing fails only by an answer: with the error of an answer of failure, or with a message, where
/// a batch came with another schema than the first one.
pub proof fn law_store_fails_only_by_an_answer<B, R, A, S, T, F, E>(
    topic: Seq<char>,
    writes: Seq<TransactionWriteView<B>>,
    events: Seq<StoreEvent<R, A, S, T, F, E>>,
    err: LakeErrorView<E>,
)
    requires
        store_run(topic, writes, events) == StoreView::<B, R, A, S, T, F, E>::Finished(Err(err)),
    ensures
        exists|i: int|
            0 <= i < events.len() && match #[trigger] events[i] {
                StoreEvent::FirstConverted(reply) => reply == Err::<FirstBatch<R, A, S>, _>(err),
                StoreEvent::TableFound(reply) => reply == Err::<T, _>(err),
                StoreEvent::WriterOpened(reply) => reply == Err::<(), _>(err),
                StoreEvent::BatchWritten(reply) => reply == Err::<(), _>(err),
                StoreEvent::NextConverted(Ok(_), same) => !same && err is Message,
                StoreEvent::NextConverted(Err(e), _) => e == err,
                StoreEvent::WriterClosed(reply) => reply == Err::<(F, u128), _>(err),
                StoreEvent::FilesCommitted(reply) => reply == Err::<(), _>(err),
            },
    decreases events.len(),
{
    if events.len() > 0 {
        let fewer = events.drop_last();
        let last = events.len() - 1;
        assert(events[last] == events.last());
        if store_run(topic, writes, fewer) is Finished {
            law_store_fails_only_by_an_answer(topic, writes, fewer, err);
            let i = choose|i: int|
                0 <= i < fewer.len() && match #[trigger] fewer[i] {
                    StoreEvent::FirstConverted(reply) => reply == Err::<FirstBatch<R, A, S>, _>(
                        err,
                    ),
                    StoreEvent::TableFound(reply) => reply == Err::<T, _>(err),
                    StoreEvent::WriterOpened(reply) => reply == Err::<(), _>(err),
                    StoreEvent::BatchWritten(reply) => reply == Err::<(), _>(err),
                    StoreEvent::NextConverted(Ok(_), same) => !same && err is Message,
                    StoreEvent::NextConverted(Err(e), _) => e == err,
                    StoreEvent::WriterClosed(reply) => reply == Err::<(F, u128), _>(err),
                    StoreEvent::FilesCommitted(reply) => reply == Err::<(), _>(err),
                };
            assert(events[i] == fewer[i]);
        }
    }
}

/// Whichever step fails ends the storing with the error that it is answered with.
pub proof fn law_each_failure_is_handed_on<B, R, A, S, T, F, E>(
    batches: BatchesView<B>,
    batch: R,
    arrow: A,
    schema: S,
    table: T,
    files: F,
    commit_uuid: u128,
    same: bool,
    err: LakeErrorView<E>,
)
    ensures
        ({
            let failed = StoreView::<B, R, A, S, T, F, E>::Finished(Err(err));
            &&& store_after(
                StoreView::<B, R, A, S, T, F, E>::Convert { batches },
                StoreEvent::FirstConverted(Err(err)),
            ) == failed
            &&& store_after(
                StoreView::<B, R, A, S, T, F, E>::Table { batches, batch, arrow, schema },
                StoreEvent::TableFound(Err(err)),
            ) == failed
            &&& store_after(
                StoreView::<B, R, A, S, T, F, E>::Open { batches, batch, arrow, table },
                StoreEvent::WriterOpened(Err(err)),
            ) == failed
            &&& store_after(
                StoreView::<B, R, A, S, T, F, E>::Write { batches, batch, arrow, table },
                StoreEvent::BatchWritten(Err(err)),
            ) == failed
            &&& store_after(
                StoreView::<B, R, A, S, T, F, E>::Next { batches, arrow, table },
                StoreEvent::NextConverted(Err(err), same),
            ) == failed
            &&& store_after(
                StoreView::<B, R, A, S, T, F, E>::Close { table },
                StoreEvent::WriterClosed(Err(err)),
            ) == failed
            &&& store_after(
                StoreView::<B, R, A, S, T, F, E>::Commit { table, commit_uuid, files },
                StoreEvent::FilesCommitted(Err(err)),
            ) == failed
        }),
{
}

/// The message on a batch with another schema names the topic, and the partition and the offset of
/// the write that it comes from.
pub proof fn law_mismatch_names_the_write<B, R, A, S, T, F, E>(
    topic: Seq<char>,
    writes: Seq<TransactionWriteView<B>>,
    at: int,
    arrow: A,
    table: T,
    batch: R,
)
    requires
        0 <= at < writes.len(),
    ensures
        store_after(
            (StoreView::<B, R, A, S, T, F, E>::Next {
                batches: BatchesView { topic, writes, at },
                arrow,
                table,
            }),
            StoreEvent::NextConverted(Ok(batch), false),
        ) == StoreView::<B, R, A, S, T, F, E>::Finished(
            Err(
                LakeErrorView::Message(
                    "schema mismatch in transactional write for topic="@ + topic + ", partition="@
                        + decimal(writes[at].partition as int) + ", offset="@ + decimal(
                        writes[at].offset as int,
                    ),
                ),
            ),
        ),
{
}

/// The suffix of data files is `txn-`, the partition in at least ten places, a hyphen, and the offset
/// in twenty places, both filled up with zeros on the left.
pub proof fn law_file_suffix_spells_the_write(partition: i32, offset: i64)
    ensures
        ({
            let suffix = file_suffix(partition, offset);
            let (p, o) = (decimal(partition as int), decimal(offset as int));
            let places = if p.len() < 10 { 10 } else { p.len() as int };
            &&& suffix.len() == 4 + places + 1 + 20
            &&& suffix.take(4) == seq!['t', 'x', 'n', '-']
            &&& suffix[4 + places] == '-'
            &&& suffix.subrange(4 + places - p.len(), 4 + places) == p
            &&& suffix.skip(suffix.len() - o.len()) == o
            &&& forall|i: int|
                4 <= i < 4 + places - p.len() ==> #[trigger] suffix[i] == '0'
            &&& forall|i: int|
                4 + places + 1 <= i < suffix.len() - o.len() ==> #[trigger] suffix[i] == '0'
        }),
{
    reveal_strlit("txn-");
    reveal_strlit("-");
    let suffix = file_suffix(partition, offset);
    let (p, o) = (decimal(partition as int), decimal(offset as int));
    let (a, b) = (zero_filled(p, 10), zero_filled(o, 20));
    lemma_decimal_length(offset);
    law_zeros_fill_up(p, 10);
    law_zeros_fill_up(o, 20);
    let places = a.len() as int;
    assert(suffix.take(4) =~= seq!['t', 'x', 'n', '-']);
    assert(suffix.subrange(4 + places - p.len(), 4 + places) =~= a.skip(places - p.len()));
    assert(suffix.skip(suffix.len() - o.len()) =~= b.skip(20 - o.len()));
    assert forall|i: int| 4 <= i < 4 + places - p.len() implies #[trigger] suffix[i] == '0' by {
        assert(suffix[i] == a[i - 4]);
    }
    assert forall|i: int|
        4 + places + 1 <= i < suffix.len() - o.len() implies #[trigger] suffix[i] == '0' by {
        assert(suffix[i] == b[i - 5 - places]);
    }
}

/// Read back as numbers, the places of the suffix give the partition and the offset.
pub proof fn law_file_suffix_reads_back(partition: i32, offset: i64)
    requires
        partition >= 0,
        offset >= 0,
    ensures
        ({
            let suffix = file_suffix(partition, offset);
            let end = suffix.len() - 21;
            &&& end >= 14
            &&& value_of(suffix.subrange(4, end)) == partition
            &&& value_of(suffix.skip(end + 1)) == offset
            &&& forall|i: int|
                4 <= i < suffix.len() && i != end ==> is_digit(#[trigger] suffix[i])
        }),
{
    reveal_strlit("txn-");
    reveal_strlit("-");
    let suffix = file_suffix(partition, offset);
    let (a, b) = (
        zero_filled(decimal(partition as int), 10),
        zero_filled(decimal(offset as int), 20),
    );
    lemma_decimal_length(offset);
    law_filled_numeral_reads_back(partition as nat, 10);
    law_filled_numeral_reads_back(offset as nat, 20);
    let end = suffix.len() - 21;
    assert(suffix.subrange(4, end) =~= a);
    assert(suffix.skip(end + 1) =~= b);
    assert forall|i: int| 4 <= i < suffix.len() && i != end implies is_digit(
        #[trigger] suffix[i],
    ) by {
        if i < end {
            assert(suffix[i] == a[i - 4]);
        } else {
            assert(suffix[i] == b[i - end - 1]);
        }
    }
}

/// The methods of the steps answer as [`store_run`] does: [`store_transaction`] starts it, and each
/// method takes the step that its answer leads to.
pub proof fn law_store_starts_the_run<'a, B, R, A, S, T, F, E>(
    topic: &'a str,
    writes: &'a [TransactionWrite<'a, B>],
    step: StoreStep<'a, B, R, A, S, T, F, E>,
)
    requires
        call_ensures(store_transaction::<B, R, A, S, T, F, E>, (topic, writes), step),
    ensures
        step@ == store_run(
            topic@,
            write_views(writes@),
            Seq::<StoreEvent<R, A, S, T, F, E>>::empty(),
        ),
        writes@.len() == 0 <==> step is Finished,
        writes@.len() == 0 ==> step@ == StoreView::<B, R, A, S, T, F, E>::Finished(Ok(())),
{
}

/// [`ConvertFirst::converted`] takes the step that its answer leads to.
pub proof fn law_converted_takes_the_step<'a, B, R, A, S, T, F, E>(
    convert: ConvertFirst<'a, B>,
    reply: Result<FirstBatch<R, A, S>, LakeError<E>>,
    step: StoreStep<'a, B, R, A, S, T, F, E>,
)
    requires
        call_ensures(
            ConvertFirst::<'a, B>::converted::<R, A, S, T, F, E>,
            (convert, reply),
            step,
        ),
    ensures
        step@ == store_after(
            StoreView::<B, R, A, S, T, F, E>::Convert { batches: convert.batches@ },
            StoreEvent::FirstConverted(outcome(reply)),
        ),
{
}

/// [`NeedTable::found`] takes the step that its answer leads to.
pub proof fn law_found_takes_the_step<'a, B, R, A, S, T, F, E>(
    need: NeedTable<'a, B, R, A, S>,
    reply: Result<T, LakeError<E>>,
    step: StoreStep<'a, B, R, A, S, T, F, E>,
)
    requires
        call_ensures(NeedTable::<'a, B, R, A, S>::found::<T, F, E>, (need, reply), step),
    ensures
        step@ == store_after(
            (StoreView::<B, R, A, S, T, F, E>::Table {
                batches: need.batches@,
                batch: need.batch,
                arrow: need.arrow,
                schema: need.schema,
            }),
            StoreEvent::TableFound(outcome(reply)),
        ),
{
}

/// [`OpenWriter::opened`] takes the step that its answer leads to.
pub proof fn law_opened_takes_the_step<'a, B, R, A, S, T, F, E>(
    open: OpenWriter<'a, B, R, A, T>,
    reply: Result<(), LakeError<E>>,
    step: StoreStep<'a, B, R, A, S, T, F, E>,
)
    requires
        call_ensures(OpenWriter::<'a, B, R, A, T>::opened::<S, F, E>, (open, reply), step),
    ensures
        step@ == store_after(
            (StoreView::<B, R, A, S, T, F, E>::Open {
                batches: open.batches@,
                batch: open.batch,
                arrow: open.arrow,
                table: open.table,
            }),
            StoreEvent::WriterOpened(outcome(reply)),
        ),
{
}

/// [`Progress::written`] takes the step that its answer leads to.
pub proof fn law_written_takes_the_step<'a, B, R, A, S, T, F, E>(
    write: WriteBatch<'a, B, R, A, T>,
    reply: Result<(), LakeError<E>>,
    step: StoreStep<'a, B, R, A, S, T, F, E>,
)
    requires
        call_ensures(Progress::<'a, B, A, T>::written::<R, S, F, E>, (write.progress, reply), step),
    ensures
        step@ == store_after(
            (StoreView::<B, R, A, S, T, F, E>::Write {
                batches: write.progress.batches@,
                batch: write.batch,
                arrow: write.progress.arrow,
                table: write.progress.table,
            }),
            StoreEvent::BatchWritten(outcome(reply)),
        ),
{
}

/// [`ConvertNext::converted`] takes the step that its answer leads to.
pub proof fn law_next_converted_takes_the_step<'a, B, R, A, S, T, F, E>(
    next: ConvertNext<'a, B, A, T>,
    reply: Result<R, LakeError<E>>,
    same: bool,
    step: StoreStep<'a, B, R, A, S, T, F, E>,
)
    requires
        call_ensures(
            ConvertNext::<'a, B, A, T>::converted::<R, S, F, E>,
            (next, reply, same),
            step,
        ),
    ensures
        step@ == store_after(
            (StoreView::<B, R, A, S, T, F, E>::Next {
                batches: next.progress.batches@,
                arrow: next.progress.arrow,
                table: next.progress.table,
            }),
            StoreEvent::NextConverted(outcome(reply), same),
        ),
{
}

/// [`CloseWriter::closed`] takes the step that its answer leads to.
pub proof fn law_closed_takes_the_step<'a, B, R, A, S, T, F, E>(
    close: CloseWriter<T>,
    reply: Result<(F, u128), LakeError<E>>,
    step: StoreStep<'a, B, R, A, S, T, F, E>,
)
    requires
        call_ensures(CloseWriter::<T>::closed::<B, R, A, S, F, E>, (close, reply), step),
    ensures
        step@ == store_after(
            StoreView::<B, R, A, S, T, F, E>::Close { table: close.table },
            StoreEvent::WriterClosed(outcome(reply)),
        ),
{
}

/// [`CommitFiles::committed`] takes the step that its answer leads to.
pub proof fn law_committed_takes_the_step<'a, B, R, A, S, T, F, E>(
    commit: CommitFiles<T, F>,
    reply: Result<(), LakeError<E>>,
    step: StoreStep<'a, B, R, A, S, T, F, E>,
)
    requires
        call_ensures(CommitFiles::<T, F>::committed::<B, R, A, S, E>, (commit, reply), step),
    ensures
        step@ == store_after(
            (StoreView::<B, R, A, S, T, F, E>::Commit {
                table: commit.table,
                commit_uuid: commit.commit_uuid,
                files: commit.files,
            }),
            StoreEvent::FilesCommitted(outcome(reply)),
        ),
{
}

/// The data files of a writer are named by the topic and the write at hand, in the format Parquet.
pub proof fn law_writer_names_its_files<'a, B, R, A, T>(
    open: &OpenWriter<'a, B, R, A, T>,
    names: FileNames<'a>,
)
    requires
        call_ensures(OpenWriter::<'a, B, R, A, T>::file_names, (open,), names),
    ensures
        ({
            let write = open.batches@.writes[open.batches@.at];
            &&& names.prefix@ == open.batches@.topic
            &&& names.suffix@ == file_suffix(write.partition, write.offset)
            &&& names.format == FileFormat::Parquet
        }),
{
}

/// The schema registry is asked for the write at hand.
pub proof fn law_registry_is_asked_for_the_write<'a, B>(
    batches: &Batches<'a, B>,
    conversion: Conversion<'a, B>,
)
    requires
        call_ensures(Batches::<'a, B>::conversion, (batches,), conversion),
    ensures
        ({
            let write = batches@.writes[batches@.at];
            &&& 0 <= batches@.at < batches@.writes.len()
            &&& conversion.topic@ == batches@.topic
            &&& conversion.partition == write.partition
            &&& *conversion.batch == write.batch
            &&& conversion.lake_type == LakeHouseType::Iceberg
        }),
{
}

/// A step shows what it is, and what is in it.
pub proof fn law_store_step_is_its_parts<'a, B, R, A, S, T, F, E>(
    step: StoreStep<'a, B, R, A, S, T, F, E>,
)
    ensures
        match step {
            StoreStep::Convert(s) => step@ == (StoreView::<B, R, A, S, T, F, E>::Convert {
                batches: s.batches@,
            }),
            StoreStep::Table(s) => step@ == (StoreView::<B, R, A, S, T, F, E>::Table {
                batches: s.batches@,
                batch: s.batch,
                arrow: s.arrow,
                schema: s.schema,
            }),
            StoreStep::Open(s) => step@ == (StoreView::<B, R, A, S, T, F, E>::Open {
                batches: s.batches@,
                batch: s.batch,
                arrow: s.arrow,
                table: s.table,
            }),
            StoreStep::Write(s) => step@ == (StoreView::<B, R, A, S, T, F, E>::Write {
                batches: s.progress.batches@,
                batch: s.batch,
                arrow: s.progress.arrow,
                table: s.progress.table,
            }),
            StoreStep::Next(s) => step@ == (StoreView::<B, R, A, S, T, F, E>::Next {
                batches: s.progress.batches@,
                arrow: s.progress.arrow,
                table: s.progress.table,
            }),
            StoreStep::Close(s) => step@ == (StoreView::<B, R, A, S, T, F, E>::Close {
                table: s.table,
            }),
            StoreStep::Commit(s) => step@ == (StoreView::<B, R, A, S, T, F, E>::Commit {
                table: s.table,
                commit_uuid: s.commit_uuid,
                files: s.files,
            }),
            StoreStep::Finished(Ok(())) => step@ == StoreView::<B, R, A, S, T, F, E>::Finished(
                Ok(()),
            ),
            StoreStep::Finished(Err(err)) => step@ == StoreView::<B, R, A, S, T, F, E>::Finished(
                Err(err@),
            ),
        },
{
}

} // verus!
